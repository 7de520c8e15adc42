//! The window server's bookkeeping: the window list, identifiers, focus,
//! the pointer, and where input events go.
use vstd::prelude::*;

use crate::canvas::{Canvas, blitted, paint_points, rect_outline};
use crate::color::Color;
use crate::ipc::InputEventData;
use crate::rect::Rect;
use crate::widgets::filled;
use crate::strs::str_eq;

verus! {

/// A client window as the server tracks it.
#[derive(Debug)]
pub struct WindowState {
    pub id: u32,
    pub title: String,
    pub rect: Rect,
    pub dirty: bool,
}

pub struct WindowServer {
    windows: Vec<WindowState>,
    next_window_id: u32,
    focused_window_id: Option<u32>,
    mouse_x: i32,
    mouse_y: i32,
    background_dirty: bool,
    last_mouse_x: i32,
    last_mouse_y: i32,
}

/// Some window of `ws` has identifier `id`.
pub open spec fn has_window(ws: Seq<WindowState>, id: u32) -> bool {
    exists|i: int| 0 <= i < ws.len() && ws[i].id == id
}

/// The target window of an event and the pointer position relative to it.
pub open spec fn hit(ws: Seq<WindowState>, mx: int, my: int) -> Option<(u32, int, int)>
    decreases ws.len(),
{
    if ws.len() == 0 {
        None
    } else if ws.last().rect.has(mx, my) {
        Some((ws.last().id, mx - ws.last().rect.x, my - ws.last().rect.y))
    } else {
        hit(ws.drop_last(), mx, my)
    }
}

/// The size in bytes of a window surface (4 bytes per pixel).
pub open spec fn surface_bytes(width: u32, height: u32) -> int {
    width * height * 4
}

pub fn surface_size(width: u32, height: u32) -> (n: usize)
    requires
        surface_bytes(width, height) <= u32::MAX,
    ensures
        n == surface_bytes(width, height),
{
    assert(width * height <= width * height * 4) by (nonlinear_arith);
    (width * height * 4) as usize
}

/// Whether a key code of the input device is a mouse button.
pub fn is_mouse_button(code: u16) -> (b: bool)
    ensures
        b == (0x110 <= code <= 0x112),
{
    code >= 0x110 && code <= 0x112
}

/// Events that come from the pointer.
pub open spec fn is_pointer_event(event_type: Seq<char>) -> bool {
    event_type == "mouse"@ || event_type == "mouse_move"@ || event_type == "mouse_button"@
}

/// The colour of the desktop behind the windows.
pub open spec fn desktop_color() -> Color {
    Color { r: 40, g: 44, b: 52, a: 255 }
}

/// The one-pixel frame around a window.
pub open spec fn border_of(r: Rect) -> Rect {
    Rect { x: (r.x - 1) as i32, y: (r.y - 1) as i32, width: (r.width + 2) as u32, height: (r.height + 2) as u32 }
}

/// `buf` after a window is drawn: its pixels blended in by their alpha,
/// then a white frame around it.
pub open spec fn window_drawn(buf: Seq<u8>, pitch: int, clip: Rect, w: WindowState, pixels: Seq<u8>) -> Seq<u8> {
    paint_points(
        blitted(buf, pitch, clip, w.rect.x, w.rect.y, pixels, w.rect.width, w.rect.height, w.rect.width * 4, true),
        pitch, clip, rect_outline(border_of(w.rect)), Color { r: 255, g: 255, b: 255, a: 255 })
}

/// `buf` after the windows are drawn, bottom to top.
pub open spec fn windows_drawn(buf: Seq<u8>, pitch: int, clip: Rect, ws: Seq<WindowState>, surfaces: Seq<Seq<u8>>) -> Seq<u8>
    decreases ws.len(),
{
    if ws.len() == 0 {
        buf
    } else {
        window_drawn(windows_drawn(buf, pitch, clip, ws.drop_last(), surfaces.drop_last()), pitch, clip, ws.last(), surfaces[ws.len() - 1])
    }
}

/// A composed frame: the desktop colour, the windows, and the pointer as a
/// red 10 x 10 square.
pub open spec fn composed(buf: Seq<u8>, pitch: int, clip: Rect, ws: Seq<WindowState>, surfaces: Seq<Seq<u8>>, mouse: (i32, i32)) -> Seq<u8> {
    filled(
        windows_drawn(filled(buf, pitch, clip, clip, desktop_color()), pitch, clip, ws, surfaces),
        pitch, clip, Rect { x: mouse.0, y: mouse.1, width: 10, height: 10 }, Color { r: 255, g: 0, b: 0, a: 255 })
}

/// A window whose surface holds its pixels and whose frame the line
/// drawer can draw.
pub open spec fn surface_fits(w: WindowState, pixels: Seq<u8>) -> bool {
    &&& w.rect.width * 4 * w.rect.height <= pixels.len()
    &&& w.rect.width * 4 * w.rect.height <= u32::MAX
    &&& 3 * (w.rect.width + 1) + 2 <= i32::MAX
    &&& 3 * (w.rect.height + 1) + 2 <= i32::MAX
}

pub open spec fn views_of(v: Seq<&[u8]>) -> Seq<Seq<u8>> {
    v.map_values(|s: &[u8]| s@)
}

impl WindowServer {
    pub closed spec fn windows(self) -> Seq<WindowState> {
        self.windows@
    }

    pub closed spec fn next_id(self) -> u32 {
        self.next_window_id
    }

    pub closed spec fn focused(self) -> Option<u32> {
        self.focused_window_id
    }

    pub closed spec fn mouse(self) -> (i32, i32) {
        (self.mouse_x, self.mouse_y)
    }

    /// The pointer position at the last composed frame.
    pub closed spec fn last_mouse(self) -> (i32, i32) {
        (self.last_mouse_x, self.last_mouse_y)
    }

    pub closed spec fn background_dirty(self) -> bool {
        self.background_dirty
    }

    /// Windows have distinct identifiers, all below the next one, sit at
    /// (100, 100) and have representable edges; the focus, if any, is on
    /// one of them.
    pub open spec fn wf(self) -> bool {
        &&& (self.focused() matches Some(f) ==> has_window(self.windows(), f))
        &&& self.next_id() >= 1
        &&& forall|i: int| 0 <= i < self.windows().len() ==> #[trigger] self.windows()[i].id < self.next_id()
        &&& forall|i: int, j: int|
            0 <= i < self.windows().len() && 0 <= j < self.windows().len() && i != j ==> self.windows()[i].id
                != self.windows()[j].id
        &&& forall|i: int| 0 <= i < self.windows().len() ==> {
            let r = #[trigger] self.windows()[i].rect;
            r.x == 100 && r.y == 100 && r.width <= i32::MAX - 100 && r.height <= i32::MAX - 100
        }
    }

    /// A server for a display of the given size: no windows, the pointer in
    /// the middle, everything to be drawn.
    pub fn new(width: u32, height: u32) -> (s: Self)
        ensures
            s.wf(),
            s.windows().len() == 0,
            s.next_id() == 1,
            s.focused() is None,
            s.mouse() == ((width / 2) as i32, (height / 2) as i32),
            s.background_dirty(),
    {
        WindowServer {
            windows: Vec::new(),
            next_window_id: 1,
            focused_window_id: None,
            mouse_x: (width / 2) as i32,
            mouse_y: (height / 2) as i32,
            background_dirty: true,
            last_mouse_x: -1,
            last_mouse_y: -1,
        }
    }

    /// Takes the next window identifier (also when the window's surface
    /// then cannot be opened).
    pub fn reserve_id(&mut self) -> (id: u32)
        requires
            old(self).wf(),
            old(self).next_id() < u32::MAX,
        ensures
            final(self).wf(),
            id == old(self).next_id(),
            final(self).next_id() == old(self).next_id() + 1,
            final(self).windows() == old(self).windows(),
            final(self).focused() == old(self).focused(),
            final(self).mouse() == old(self).mouse(),
            final(self).background_dirty() == old(self).background_dirty(),
    {
        let id = self.next_window_id;
        self.next_window_id = self.next_window_id + 1;
        proof {
            assert forall|i: int| 0 <= i < self.windows@.len() implies #[trigger] self.windows@[i].id < self.next_window_id by {
                assert(old(self).windows()[i].id < old(self).next_id());
            }
        }
        id
    }

    /// Adds the window `id` (just reserved) at (100, 100), focused and to be
    /// drawn.
    pub fn add_window(&mut self, id: u32, title: String, width: u32, height: u32)
        requires
            old(self).wf(),
            id < old(self).next_id(),
            forall|i: int| 0 <= i < old(self).windows().len() ==> old(self).windows()[i].id != id,
            width <= i32::MAX - 100,
            height <= i32::MAX - 100,
        ensures
            final(self).wf(),
            final(self).windows() == old(self).windows().push(
                WindowState { id, title, rect: Rect { x: 100, y: 100, width, height }, dirty: true },
            ),
            final(self).focused() == Some(id),
            final(self).background_dirty(),
            final(self).next_id() == old(self).next_id(),
            final(self).mouse() == old(self).mouse(),
    {
        let w = WindowState { id, title, rect: Rect::new(100, 100, width, height), dirty: true };
        self.windows.push(w);
        self.focused_window_id = Some(id);
        self.background_dirty = true;
        proof {
            let n = old(self).windows().len();
            assert forall|i: int| 0 <= i < self.windows@.len() implies #[trigger] self.windows@[i].id < self.next_window_id by {
                if i < n {
                    assert(self.windows@[i] == old(self).windows()[i]);
                }
            }
            assert forall|i: int, j: int|
                0 <= i < self.windows@.len() && 0 <= j < self.windows@.len() && i != j implies self.windows@[i].id
                    != self.windows@[j].id by {
                if i < n {
                    assert(self.windows@[i] == old(self).windows()[i]);
                }
                if j < n {
                    assert(self.windows@[j] == old(self).windows()[j]);
                }
            }
            assert forall|i: int| 0 <= i < self.windows@.len() implies {
                let r = #[trigger] self.windows@[i].rect;
                r.x == 100 && r.y == 100 && r.width <= i32::MAX - 100 && r.height <= i32::MAX - 100
            } by {
                if i < n {
                    assert(self.windows@[i] == old(self).windows()[i]);
                }
            }
            assert(self.windows@[n as int].id == id);
        }
    }

    /// Removes the window `id`; if it had the focus, the focus passes to
    /// the most recently created remaining window.
    pub fn remove_window(&mut self, id: u32)
        requires
            old(self).wf(),
        ensures
            final(self).wf(),
            final(self).windows() == old(self).windows().filter(|w: WindowState| w.id != id),
            old(self).focused() == Some(id) ==> final(self).focused() == (if final(self).windows().len() > 0 {
                Some(final(self).windows().last().id)
            } else {
                None::<u32>
            }),
            old(self).focused() != Some(id) ==> final(self).focused() == old(self).focused(),
            final(self).next_id() == old(self).next_id(),
            final(self).mouse() == old(self).mouse(),
    {
        let mut kept: Vec<WindowState> = Vec::new();
        let mut old_windows = Vec::new();
        std::mem::swap(&mut old_windows, &mut self.windows);
        let ghost all = old_windows@;
        assert(all == old(self).windows());
        let ghost mut done: int = 0;
        while old_windows.len() > 0
            invariant
                0 <= done <= all.len(),
                old_windows@ == all.subrange(done, all.len() as int),
                kept@ == all.subrange(0, done).filter(|w: WindowState| w.id != id),
            decreases old_windows@.len(),
        {
            let w = old_windows.remove(0);
            let ghost pre = all.subrange(0, done);
            assert(all.subrange(0, done + 1).drop_last() =~= pre);
            assert(all[done] == w);
            reveal_with_fuel(Seq::filter, 1);
            if w.id != id {
                kept.push(w);
            }
            proof {
                done = done + 1;
                assert(old_windows@ =~= all.subrange(done, all.len() as int));
            }
        }
        assert(all.subrange(0, done) =~= all);
        self.windows = kept;
        proof {
            let f = all.filter(|w: WindowState| w.id != id);
            assert forall|i: int| 0 <= i < f.len() implies all.contains(#[trigger] f[i]) by {
                all.lemma_filter_contains_rev(|w: WindowState| w.id != id, f[i]);
            }
            assert forall|i: int| 0 <= i < f.len() implies #[trigger] f[i].id < self.next_window_id && {
                let r = f[i].rect;
                r.x == 100 && r.y == 100 && r.width <= i32::MAX - 100 && r.height <= i32::MAX - 100
            } by {
                assert(all.contains(f[i]));
                let k = choose|k: int| 0 <= k < all.len() && all[k] == f[i];
                assert(old(self).windows()[k].id < old(self).next_id());
                let r = old(self).windows()[k].rect;
                assert(r.x == 100 && r.y == 100 && r.width <= i32::MAX - 100 && r.height <= i32::MAX - 100);
            }
            lemma_filter_keeps_distinct_ids(all, id);
        }
        if self.focused_window_id == Some(id) {
            let n = self.windows.len();
            self.focused_window_id = if n > 0 { Some(self.windows[n - 1].id) } else { None };
            proof {
                if n > 0 {
                    assert(self.windows@[n - 1].id == self.windows@[n - 1].id);
                }
            }
        } else {
            proof {
                if self.focused_window_id is Some {
                    let f = self.focused_window_id->0;
                    let k = choose|i: int| 0 <= i < all.len() && all[i].id == f;
                    all.lemma_filter_contains(|w: WindowState| w.id != id, k);
                    let fl = all.filter(|w: WindowState| w.id != id);
                    let j = choose|j: int| 0 <= j < fl.len() && fl[j] == all[k];
                    assert(self.windows@[j].id == f);
                }
            }
        }
    }

    /// Marks the window `id` as needing to be redrawn.
    pub fn mark_dirty(&mut self, id: u32)
        requires
            old(self).wf(),
        ensures
            final(self).wf(),
            final(self).windows().len() == old(self).windows().len(),
            forall|i: int| 0 <= i < old(self).windows().len() ==> {
                let (a, b) = (#[trigger] old(self).windows()[i], final(self).windows()[i]);
                b.id == a.id && b.title == a.title && b.rect == a.rect && b.dirty == (a.dirty || a.id == id)
            },
            final(self).focused() == old(self).focused(),
            final(self).next_id() == old(self).next_id(),
            final(self).mouse() == old(self).mouse(),
    {
        let n = self.windows.len();
        let mut i: usize = 0;
        while i < n
            invariant
                n == self.windows@.len(),
                n == old(self).windows().len(),
                i <= n,
                self.next_window_id == old(self).next_id(),
                self.focused_window_id == old(self).focused(),
                self.mouse_x == old(self).mouse().0,
                self.mouse_y == old(self).mouse().1,
                forall|k: int| 0 <= k < n ==> {
                    let (a, b) = (#[trigger] old(self).windows()[k], self.windows@[k]);
                    b.id == a.id && b.title == a.title && b.rect == a.rect && b.dirty == (if k < i {
                        a.dirty || a.id == id
                    } else {
                        a.dirty
                    })
                },
            decreases n - i,
        {
            if self.windows[i].id == id {
                let mut w = self.windows.remove(i);
                w.dirty = true;
                self.windows.insert(i, w);
            }
            i = i + 1;
        }
        proof {
            assert forall|k: int| 0 <= k < n implies #[trigger] self.windows()[k].id == old(self).windows()[k].id
                && self.windows()[k].rect == old(self).windows()[k].rect by {
                assert(old(self).windows()[k] == old(self).windows()[k]);
            }
            lemma_wf_pointwise(*old(self), *self);
        }
    }

    /// The window an input event goes to, with the pointer position
    /// relative to it: pointer events ("mouse", "mouse_move",
    /// "mouse_button") go to the topmost window under the pointer, with the
    /// position relative to it, or nowhere; every other event goes to the
    /// focused window (relative position 0, 0).
    pub open spec fn dispatch_target(self, event_type: Seq<char>) -> Option<(u32, int, int)> {
        if is_pointer_event(event_type) {
            hit(self.windows(), self.mouse().0 as int, self.mouse().1 as int)
        } else {
            match self.focused() {
                Some(id) => Some((id, 0, 0)),
                None => None,
            }
        }
    }

    /// Builds the event for the window chosen by `dispatch_target`, if that
    /// window exists: a move for "mouse_move", a button for "mouse_button",
    /// a key otherwise.
    pub fn dispatch_input(&self, event_type: &str, button: Option<u16>, pressed: Option<bool>, code: Option<u16>) -> (r: Option<(u32, InputEventData)>)
        requires
            self.wf(),
            self.dispatch_target(event_type@) matches Some((id, _, _)) && (exists|i: int| 0 <= i < self.windows().len() && self.windows()[i].id == id)
                ==> if event_type@ == "mouse_move"@ {
                    true
                } else if event_type@ == "mouse_button"@ {
                    button is Some && pressed is Some
                } else {
                    code is Some && pressed is Some
                },
        ensures
            match self.dispatch_target(event_type@) {
                None => r is None,
                Some((id, lx, ly)) => if !(exists|i: int| 0 <= i < self.windows().len() && self.windows()[i].id == id) {
                    r is None
                } else if event_type@ == "mouse_move"@ {
                    r == Some((id, InputEventData::MouseMove { x: self.mouse().0, y: self.mouse().1, local_x: lx as i32, local_y: ly as i32 }))
                } else if event_type@ == "mouse_button"@ {
                    r == Some((id, InputEventData::MouseButton {
                        button: button->0,
                        pressed: pressed->0,
                        x: self.mouse().0,
                        y: self.mouse().1,
                        local_x: lx as i32,
                        local_y: ly as i32,
                    }))
                } else {
                    r == Some((id, InputEventData::Key { code: code->0, pressed: pressed->0 }))
                },
            },
    {
        let mut target: Option<u32> = None;
        let mut local_x: i32 = 0;
        let mut local_y: i32 = 0;
        if str_eq(event_type, "mouse") || str_eq(event_type, "mouse_move") || str_eq(event_type, "mouse_button") {
            match self.hit_test() {
                Some((id, lx, ly)) => {
                    target = Some(id);
                    local_x = lx;
                    local_y = ly;
                },
                None => {},
            }
        } else {
            target = self.focused_window_id;
        }
        let wid = match target {
            Some(t) => t,
            None => {
                return None;
            },
        };
        let mut found = false;
        for k in 0..self.windows.len()
            invariant
                !found ==> forall|j: int| 0 <= j < k ==> self.windows@[j].id != wid,
                found ==> exists|j: int| 0 <= j < self.windows@.len() && self.windows@[j].id == wid,
        {
            if self.windows[k].id == wid {
                found = true;
            }
        }
        if !found {
            return None;
        }
        let ev = if str_eq(event_type, "mouse_move") {
            InputEventData::MouseMove { x: self.mouse_x, y: self.mouse_y, local_x, local_y }
        } else if str_eq(event_type, "mouse_button") {
            InputEventData::MouseButton {
                button: button.unwrap(),
                pressed: pressed.unwrap(),
                x: self.mouse_x,
                y: self.mouse_y,
                local_x,
                local_y,
            }
        } else {
            InputEventData::Key { code: code.unwrap(), pressed: pressed.unwrap() }
        };
        Some((wid, ev))
    }

    /// The topmost window under the pointer and the pointer position
    /// relative to it.
    fn hit_test(&self) -> (r: Option<(u32, i32, i32)>)
        requires
            self.wf(),
        ensures
            match hit(self.windows(), self.mouse_x as int, self.mouse_y as int) {
                None => r is None,
                Some((id, lx, ly)) => r == Some((id, lx as i32, ly as i32)) && i32::MIN <= lx <= i32::MAX
                    && i32::MIN <= ly <= i32::MAX,
            },
    {
        let ghost ws = self.windows@;
        let mut i = self.windows.len();
        assert(ws.subrange(0, i as int) =~= ws);
        while i > 0
            invariant
                self.wf(),
                ws == self.windows@,
                i <= ws.len(),
                hit(ws, self.mouse_x as int, self.mouse_y as int) == hit(ws.subrange(0, i as int), self.mouse_x as int, self.mouse_y as int),
            decreases i,
        {
            let ghost pre = ws.subrange(0, i as int);
            assert(pre.last() == ws[i - 1]);
            assert(pre.drop_last() =~= ws.subrange(0, i - 1));
            let w = &self.windows[i - 1];
            let ghost r = self.windows()[i - 1].rect;
            assert(r.x == 100 && r.y == 100 && r.width <= i32::MAX - 100 && r.height <= i32::MAX - 100);
            assert(w.rect == r);
            if w.rect.contains(self.mouse_x, self.mouse_y) {
                return Some((w.id, self.mouse_x - w.rect.x, self.mouse_y - w.rect.y));
            }
            i = i - 1;
        }
        None
    }

    /// Applies a relative pointer motion along `axis` (0: horizontal,
    /// 1: vertical), keeping the pointer on a screen of `width` x `height`.
    pub fn move_pointer(&mut self, axis: u16, value: i32, width: i32, height: i32)
        requires
            old(self).wf(),
            axis == 0 ==> i32::MIN <= old(self).mouse().0 + value <= i32::MAX && i32::MIN <= width - 1,
            axis == 1 ==> i32::MIN <= old(self).mouse().1 + value <= i32::MAX && i32::MIN <= height - 1,
        ensures
            final(self).wf(),
            final(self).windows() == old(self).windows(),
            final(self).focused() == old(self).focused(),
            final(self).next_id() == old(self).next_id(),
            axis == 0 ==> final(self).mouse() == (clamp(old(self).mouse().0 + value, width - 1) as i32, old(self).mouse().1),
            axis == 1 ==> final(self).mouse() == (old(self).mouse().0, clamp(old(self).mouse().1 + value, height - 1) as i32),
            axis != 0 && axis != 1 ==> final(self).mouse() == old(self).mouse(),
    {
        if axis == 0 {
            let v = self.mouse_x + value;
            let v = if v > 0 { v } else { 0 };
            let hi = width - 1;
            self.mouse_x = if v < hi { v } else { hi };
        } else if axis == 1 {
            let v = self.mouse_y + value;
            let v = if v > 0 { v } else { 0 };
            let hi = height - 1;
            self.mouse_y = if v < hi { v } else { hi };
        }
        proof {
            lemma_wf_pointwise(*old(self), *self);
        }
    }

    /// Whether the screen must be recomposed: the background changed, a
    /// window is dirty, or the pointer moved since the last frame.
    pub fn needs_redraw(&self) -> (b: bool)
        ensures
            b == (self.background_dirty() || (exists|i: int| 0 <= i < self.windows().len() && self.windows()[i].dirty)
                || self.mouse() != self.last_mouse()),
    {
        if self.background_dirty {
            return true;
        }
        for i in 0..self.windows.len()
            invariant
                !self.background_dirty,
                forall|j: int| 0 <= j < i ==> !self.windows@[j].dirty,
        {
            if self.windows[i].dirty {
                assert(self.windows()[i as int].dirty);
                return true;
            }
        }
        assert(!(exists|i: int| 0 <= i < self.windows().len() && self.windows()[i].dirty));
        self.mouse_x != self.last_mouse_x || self.mouse_y != self.last_mouse_y
    }

    /// Records that a frame was composed: windows and background are clean
    /// and the pointer position is remembered.
    pub fn frame_done(&mut self)
        requires
            old(self).wf(),
        ensures
            final(self).wf(),
            !final(self).background_dirty(),
            final(self).windows().len() == old(self).windows().len(),
            forall|i: int| 0 <= i < old(self).windows().len() ==> {
                let (a, b) = (#[trigger] old(self).windows()[i], final(self).windows()[i]);
                b.id == a.id && b.title == a.title && b.rect == a.rect && !b.dirty
            },
            final(self).focused() == old(self).focused(),
            final(self).mouse() == old(self).mouse(),
            final(self).last_mouse() == old(self).mouse(),
            final(self).next_id() == old(self).next_id(),
    {
        let n = self.windows.len();
        let mut i: usize = 0;
        while i < n
            invariant
                n == self.windows@.len(),
                n == old(self).windows().len(),
                i <= n,
                self.next_window_id == old(self).next_id(),
                self.focused_window_id == old(self).focused(),
                self.mouse_x == old(self).mouse().0,
                self.mouse_y == old(self).mouse().1,
                forall|k: int| 0 <= k < n ==> {
                    let (a, b) = (#[trigger] old(self).windows()[k], self.windows@[k]);
                    b.id == a.id && b.title == a.title && b.rect == a.rect && (k < i ==> !b.dirty)
                },
            decreases n - i,
        {
            let mut w = self.windows.remove(i);
            w.dirty = false;
            self.windows.insert(i, w);
            i = i + 1;
        }
        self.last_mouse_x = self.mouse_x;
        self.last_mouse_y = self.mouse_y;
        self.background_dirty = false;
        proof {
            assert forall|k: int| 0 <= k < n implies #[trigger] self.windows()[k].id == old(self).windows()[k].id
                && self.windows()[k].rect == old(self).windows()[k].rect by {
                assert(old(self).windows()[k] == old(self).windows()[k]);
            }
            lemma_wf_pointwise(*old(self), *self);
        }
    }

    /// Composes a frame on `canvas` if anything changed (see
    /// `needs_redraw`): the desktop, each window from its surface with a
    /// white frame, and the pointer; then records the frame as done.
    /// Returns whether it drew.
    #[verifier::rlimit(40)]
    pub fn compose(&mut self, canvas: &mut Canvas, surfaces: &[&[u8]]) -> (drew: bool)
        requires
            old(self).wf(),
            old(canvas).wf(),
            surfaces@.len() == old(self).windows().len(),
            forall|i: int| 0 <= i < surfaces@.len() ==> surface_fits(old(self).windows()[i], #[trigger] surfaces@[i]@),
            old(self).mouse().0 + 10 <= i32::MAX,
            old(self).mouse().1 + 10 <= i32::MAX,
        ensures
            drew == (old(self).background_dirty() || (exists|i: int| 0 <= i < old(self).windows().len() && old(self).windows()[i].dirty)
                || old(self).mouse() != old(self).last_mouse()),
            final(canvas).wf(),
            final(canvas).clip_rect == old(canvas).clip_rect,
            final(canvas).pitch == old(canvas).pitch,
            final(canvas).width == old(canvas).width,
            final(canvas).height == old(canvas).height,
            final(self).wf(),
            drew ==> final(canvas).buffer@ == composed(old(canvas).buffer@, old(canvas).pitch as int, old(canvas).clip_rect,
                old(self).windows(), views_of(surfaces@), old(self).mouse()),
            drew ==> !final(self).background_dirty() && final(self).last_mouse() == old(self).mouse()
                && final(self).windows().len() == old(self).windows().len()
                && (forall|i: int| 0 <= i < old(self).windows().len() ==> !(#[trigger] final(self).windows()[i]).dirty),
            !drew ==> final(canvas).buffer@ == old(canvas).buffer@,
            !drew ==> *final(self) == *old(self),
            final(self).mouse() == old(self).mouse(),
            final(self).focused() == old(self).focused(),
            final(self).next_id() == old(self).next_id(),
            final(self).windows().len() == old(self).windows().len(),
            forall|i: int| 0 <= i < old(self).windows().len() ==> {
                let (a, b) = (#[trigger] old(self).windows()[i], final(self).windows()[i]);
                b.id == a.id && b.title == a.title && b.rect == a.rect
            },
    {
        if !self.needs_redraw() {
            return false;
        }
        let ghost b0 = canvas.buffer@;
        let ghost p = canvas.pitch as int;
        let ghost clip = canvas.clip_rect;
        let ghost ws = self.windows();
        let ghost svs = views_of(surfaces@);
        canvas.clear(Color::rgb(40, 44, 52));
        let ghost bg = canvas.buffer@;
        let mut i: usize = 0;
        while i < self.windows.len()
            invariant
                self.wf(),
                self.windows() == ws,
                canvas.wf(),
                canvas.pitch as int == p,
                canvas.clip_rect == clip,
                old(canvas).width == canvas.width && old(canvas).height == canvas.height,
                surfaces@.len() == ws.len(),
                svs == views_of(surfaces@),
                forall|k: int| 0 <= k < surfaces@.len() ==> surface_fits(ws[k], #[trigger] surfaces@[k]@),
                i <= ws.len(),
                canvas.buffer@ == windows_drawn(bg, p, clip, ws.take(i as int), svs.take(i as int)),
            decreases ws.len() - i,
        {
            let r = self.windows[i].rect;
            let px = surfaces[i];
            proof {
                assert(r == ws[i as int].rect);
                assert(surface_fits(ws[i as int], surfaces@[i as int]@));
                assert(r.x == 100 && r.y == 100);
                assert(r.width * 4 * r.height == (r.width * 4) * r.height);
            }
            canvas.blit(r.x, r.y, px, r.width, r.height, r.width * 4, true);
            canvas.draw_rect(Rect::new(r.x - 1, r.y - 1, r.width + 2, r.height + 2), Color::white());
            proof {
                assert(ws.take(i + 1).drop_last() =~= ws.take(i as int));
                assert(svs.take(i + 1).drop_last() =~= svs.take(i as int));
                assert(svs.take(i + 1)[i as int] == px@);
            }
            i = i + 1;
        }
        proof {
            assert(ws.take(ws.len() as int) =~= ws);
            assert(svs.take(ws.len() as int) =~= svs);
        }
        canvas.fill_rect(Rect::new(self.mouse_x, self.mouse_y, 10, 10), Color::red());
        let ghost pre = *self;
        self.frame_done();
        proof {
            assert forall|k: int| 0 <= k < ws.len() implies !(#[trigger] self.windows()[k]).dirty by {
                assert(pre.windows()[k] == ws[k]);
            }
        }
        true
    }

    /// The windows, bottom to top, for composing a frame.
    pub fn window_list(&self) -> (ws: &Vec<WindowState>)
        ensures
            ws@ == self.windows(),
    {
        &self.windows
    }

    /// The pointer position.
    pub fn pointer(&self) -> (p: (i32, i32))
        ensures
            p == self.mouse(),
    {
        (self.mouse_x, self.mouse_y)
    }
}

proof fn lemma_wf_pointwise(a: WindowServer, b: WindowServer)
    requires
        a.wf(),
        a.next_id() == b.next_id(),
        a.focused() == b.focused(),
        a.windows().len() == b.windows().len(),
        forall|i: int| 0 <= i < a.windows().len() ==> #[trigger] b.windows()[i].id == a.windows()[i].id
            && b.windows()[i].rect == a.windows()[i].rect,
    ensures
        b.wf(),
{
    if a.focused() is Some {
        let f = a.focused()->0;
        let k = choose|i: int| 0 <= i < a.windows().len() && a.windows()[i].id == f;
        assert(b.windows()[k].id == f);
    }
    assert forall|i: int| 0 <= i < b.windows().len() implies #[trigger] b.windows()[i].id < b.next_id() by {
        assert(b.windows()[i].id == a.windows()[i].id);
        assert(a.windows()[i].id < a.next_id());
    }
    assert forall|i: int, j: int|
        0 <= i < b.windows().len() && 0 <= j < b.windows().len() && i != j implies b.windows()[i].id != b.windows()[j].id by {
        assert(b.windows()[i].id == a.windows()[i].id);
        assert(b.windows()[j].id == a.windows()[j].id);
    }
    assert forall|i: int| 0 <= i < b.windows().len() implies {
        let r = #[trigger] b.windows()[i].rect;
        r.x == 100 && r.y == 100 && r.width <= i32::MAX - 100 && r.height <= i32::MAX - 100
    } by {
        assert(b.windows()[i].id == a.windows()[i].id);
        assert(b.windows()[i].rect == a.windows()[i].rect);
        let r = a.windows()[i].rect;
        assert(r.x == 100 && r.y == 100 && r.width <= i32::MAX - 100 && r.height <= i32::MAX - 100);
    }
}

/// A value clamped to `0..=hi` the way `max(0).min(hi)` does.
pub open spec fn clamp(v: int, hi: int) -> int {
    let lo = if v > 0 { v } else { 0 };
    if lo < hi { lo } else { hi }
}

proof fn lemma_filter_keeps_distinct_ids(all: Seq<WindowState>, id: u32)
    requires
        forall|i: int, j: int| 0 <= i < all.len() && 0 <= j < all.len() && i != j ==> all[i].id != all[j].id,
    ensures
        ({
            let f = all.filter(|w: WindowState| w.id != id);
            forall|i: int, j: int| 0 <= i < f.len() && 0 <= j < f.len() && i != j ==> f[i].id != f[j].id
        }),
    decreases all.len(),
{
    reveal_with_fuel(Seq::filter, 1);
    if all.len() > 0 {
        let init = all.drop_last();
        lemma_filter_keeps_distinct_ids(init, id);
        let fi = init.filter(|w: WindowState| w.id != id);
        let f = all.filter(|w: WindowState| w.id != id);
        if all.last().id != id {
            assert(f == fi.push(all.last()));
            assert forall|i: int| 0 <= i < fi.len() implies fi[i].id != all.last().id by {
                init.lemma_filter_contains_rev(|w: WindowState| w.id != id, fi[i]);
                let k = choose|k: int| 0 <= k < init.len() && init[k] == fi[i];
                assert(all[k] == init[k]);
            }
        } else {
            assert(f == fi);
        }
    }
}

/// Filtering a list of windows keeps their identifiers distinct.
proof fn lemma_filter_distinct(all: Seq<WindowState>, keep: spec_fn(WindowState) -> bool)
    requires
        forall|i: int, j: int| 0 <= i < all.len() && 0 <= j < all.len() && i != j ==> all[i].id != all[j].id,
    ensures
        ({
            let f = all.filter(keep);
            forall|i: int, j: int| 0 <= i < f.len() && 0 <= j < f.len() && i != j ==> f[i].id != f[j].id
        }),
    decreases all.len(),
{
    reveal_with_fuel(Seq::filter, 1);
    if all.len() > 0 {
        let init = all.drop_last();
        lemma_filter_distinct(init, keep);
        let fi = init.filter(keep);
        let f = all.filter(keep);
        if keep(all.last()) {
            assert(f == fi.push(all.last()));
            assert forall|i: int| 0 <= i < fi.len() implies fi[i].id != all.last().id by {
                init.lemma_filter_contains_rev(keep, fi[i]);
                let k = choose|k: int| 0 <= k < init.len() && init[k] == fi[i];
                assert(all[k] == init[k]);
            }
        } else {
            assert(f == fi);
        }
    }
}

/// The last window of a list, if any.
pub open spec fn last_id(ws: Seq<WindowState>) -> Option<u32> {
    if ws.len() > 0 {
        Some(ws.last().id)
    } else {
        None
    }
}

/// Whether `id` is one of `ids`.
fn contains_id(ids: &Vec<u32>, id: u32) -> (r: bool)
    ensures
        r == ids@.contains(id),
{
    for i in 0..ids.len()
        invariant
            forall|k: int| 0 <= k < i ==> ids@[k] != id,
    {
        if ids[i] == id {
            assert(ids@[i as int] == id);
            return true;
        }
    }
    false
}

impl WindowServer {
    /// Removes every window whose identifier is in `gone`, in one pass; if
    /// the focused window is among them, the focus passes to the last
    /// remaining window. This is what removing them one by one gives.
    fn remove_windows(&mut self, gone: &Vec<u32>)
        requires
            old(self).wf(),
        ensures
            final(self).wf(),
            final(self).windows() == old(self).windows().filter(|w: WindowState| !gone@.contains(w.id)),
            (old(self).focused() matches Some(f) && gone@.contains(f)) ==> final(self).focused() == last_id(final(self).windows()),
            !(old(self).focused() matches Some(f) && gone@.contains(f)) ==> final(self).focused() == old(self).focused(),
            final(self).next_id() == old(self).next_id(),
            final(self).mouse() == old(self).mouse(),
            final(self).last_mouse() == old(self).last_mouse(),
            final(self).background_dirty() == old(self).background_dirty(),
    {
        let ghost keep = |w: WindowState| !gone@.contains(w.id);
        let mut kept: Vec<WindowState> = Vec::new();
        let mut old_windows = Vec::new();
        std::mem::swap(&mut old_windows, &mut self.windows);
        let ghost all = old_windows@;
        assert(all == old(self).windows());
        let ghost mut done: int = 0;
        while old_windows.len() > 0
            invariant
                0 <= done <= all.len(),
                old_windows@ == all.subrange(done, all.len() as int),
                kept@ == all.subrange(0, done).filter(keep),
                keep == (|w: WindowState| !gone@.contains(w.id)),
            decreases old_windows@.len(),
        {
            let w = old_windows.remove(0);
            let ghost pre = all.subrange(0, done);
            assert(all.subrange(0, done + 1).drop_last() =~= pre);
            assert(all[done] == w);
            reveal_with_fuel(Seq::filter, 1);
            if !contains_id(gone, w.id) {
                kept.push(w);
            }
            proof {
                done = done + 1;
                assert(old_windows@ =~= all.subrange(done, all.len() as int));
            }
        }
        assert(all.subrange(0, done) =~= all);
        self.windows = kept;
        proof {
            let f = all.filter(keep);
            assert forall|i: int| 0 <= i < f.len() implies all.contains(#[trigger] f[i]) by {
                all.lemma_filter_contains_rev(keep, f[i]);
            }
            assert forall|i: int| 0 <= i < f.len() implies #[trigger] f[i].id < self.next_window_id && {
                let r = f[i].rect;
                r.x == 100 && r.y == 100 && r.width <= i32::MAX - 100 && r.height <= i32::MAX - 100
            } by {
                assert(all.contains(f[i]));
                let k = choose|k: int| 0 <= k < all.len() && all[k] == f[i];
                assert(old(self).windows()[k].id < old(self).next_id());
                let r = old(self).windows()[k].rect;
                assert(r.x == 100 && r.y == 100 && r.width <= i32::MAX - 100 && r.height <= i32::MAX - 100);
            }
            lemma_filter_distinct(all, keep);
        }
        let moved = match self.focused_window_id {
            Some(f) => contains_id(gone, f),
            None => false,
        };
        if moved {
            let n = self.windows.len();
            self.focused_window_id = if n > 0 { Some(self.windows[n - 1].id) } else { None };
        } else {
            proof {
                if self.focused_window_id is Some {
                    let f = self.focused_window_id->0;
                    let k = choose|i: int| 0 <= i < all.len() && all[i].id == f;
                    all.lemma_filter_contains(keep, k);
                    let fl = all.filter(keep);
                    let j = choose|j: int| 0 <= j < fl.len() && fl[j] == all[k];
                    assert(self.windows@[j].id == f);
                }
            }
        }
    }
}

/// The windows one client connection has created. A connection may destroy
/// or mark for redrawing only its own windows, and they all go away when it
/// disconnects.
pub struct ClientWindows {
    ids: Vec<u32>,
}

impl ClientWindows {
    /// The identifiers of the connection's windows, in creation order.
    pub closed spec fn owned(self) -> Seq<u32> {
        self.ids@
    }

    /// A new connection owns no window.
    pub fn new() -> (c: Self)
        ensures
            c.owned() == Seq::<u32>::empty(),
    {
        ClientWindows { ids: Vec::new() }
    }

    /// Whether the connection owns the window `id`.
    pub fn owns(&self, id: u32) -> (b: bool)
        ensures
            b == self.owned().contains(id),
    {
        contains_id(&self.ids, id)
    }

    /// The connection's windows, in creation order.
    pub fn window_ids(&self) -> (v: &Vec<u32>)
        ensures
            v@ == self.owned(),
    {
        &self.ids
    }

    /// Records that the connection created the window `id`.
    pub fn on_created(&mut self, id: u32)
        ensures
            final(self).owned() == old(self).owned().push(id),
    {
        self.ids.push(id);
    }

    /// A request to destroy the window `id`: carried out only when the
    /// connection owns it, and the window is then no longer owned.
    pub fn on_destroy(&mut self, server: &mut WindowServer, id: u32)
        requires
            old(server).wf(),
        ensures
            final(server).wf(),
            old(self).owned().contains(id) ==> {
                &&& final(server).windows() == old(server).windows().filter(|w: WindowState| w.id != id)
                &&& old(server).focused() == Some(id) ==> final(server).focused() == last_id(final(server).windows())
                &&& old(server).focused() != Some(id) ==> final(server).focused() == old(server).focused()
                &&& final(server).next_id() == old(server).next_id()
                &&& final(server).mouse() == old(server).mouse()
                &&& final(self).owned() == old(self).owned().filter(|x: u32| x != id)
            },
            !old(self).owned().contains(id) ==> *final(server) == *old(server) && final(self).owned() == old(self).owned(),
    {
        if !contains_id(&self.ids, id) {
            return;
        }
        server.remove_window(id);
        let mut kept: Vec<u32> = Vec::new();
        let ghost all = self.ids@;
        let ghost keep = |x: u32| x != id;
        for i in 0..self.ids.len()
            invariant
                all == self.ids@,
                keep == (|x: u32| x != id),
                kept@ == all.subrange(0, i as int).filter(keep),
        {
            assert(all.subrange(0, i + 1).drop_last() =~= all.subrange(0, i as int));
            reveal_with_fuel(Seq::filter, 1);
            if self.ids[i] != id {
                kept.push(self.ids[i]);
            }
        }
        assert(all.subrange(0, all.len() as int) =~= all);
        self.ids = kept;
    }

    /// A window's surface changed: the window is marked for redrawing only
    /// when the connection owns it.
    pub fn on_dirty(&self, server: &mut WindowServer, id: u32)
        requires
            old(server).wf(),
        ensures
            final(server).wf(),
            self.owned().contains(id) ==> {
                &&& final(server).windows().len() == old(server).windows().len()
                &&& forall|i: int| 0 <= i < old(server).windows().len() ==> {
                    let (a, b) = (#[trigger] old(server).windows()[i], final(server).windows()[i]);
                    b.id == a.id && b.title == a.title && b.rect == a.rect && b.dirty == (a.dirty || a.id == id)
                }
                &&& final(server).focused() == old(server).focused()
                &&& final(server).next_id() == old(server).next_id()
                &&& final(server).mouse() == old(server).mouse()
            },
            !self.owned().contains(id) ==> *final(server) == *old(server),
    {
        if contains_id(&self.ids, id) {
            server.mark_dirty(id);
        }
    }

    /// The connection closed: all its windows are removed; if one of them
    /// had the focus, the focus passes to the last remaining window, or to
    /// none.
    pub fn on_disconnect(self, server: &mut WindowServer)
        requires
            old(server).wf(),
        ensures
            final(server).wf(),
            final(server).windows() == old(server).windows().filter(|w: WindowState| !self.owned().contains(w.id)),
            (old(server).focused() matches Some(f) && self.owned().contains(f))
                ==> final(server).focused() == last_id(final(server).windows()),
            !(old(server).focused() matches Some(f) && self.owned().contains(f))
                ==> final(server).focused() == old(server).focused(),
            final(server).next_id() == old(server).next_id(),
            final(server).mouse() == old(server).mouse(),
    {
        server.remove_windows(&self.ids);
    }
}

/// Identifiers are never reused: a newly reserved identifier differs from
/// every window's, and removing windows keeps them distinct.
pub proof fn lemma_fresh_ids(s: WindowServer, i: int)
    requires
        s.wf(),
        0 <= i < s.windows().len(),
    ensures
        s.windows()[i].id != s.next_id(),
{
}

/// The window `hit` picks is the topmost one under the point: the window
/// of greatest index in the stacking order whose rectangle holds it, with
/// the point relative to that window; no window when none holds it.
proof fn lemma_hit_topmost(ws: Seq<WindowState>, mx: int, my: int, i: int)
    requires
        0 <= i < ws.len(),
        ws[i].rect.has(mx, my),
        forall|j: int| i < j < ws.len() ==> !(#[trigger] ws[j]).rect.has(mx, my),
    ensures
        hit(ws, mx, my) == Some((ws[i].id, mx - ws[i].rect.x, my - ws[i].rect.y)),
    decreases ws.len(),
{
    if i < ws.len() - 1 {
        assert(!ws[ws.len() - 1].rect.has(mx, my));
        let d = ws.drop_last();
        assert forall|j: int| i < j < d.len() implies !(#[trigger] d[j]).rect.has(mx, my) by {
            assert(d[j] == ws[j]);
        }
        lemma_hit_topmost(d, mx, my, i);
        assert(d[i] == ws[i]);
    }
}

proof fn lemma_hit_none(ws: Seq<WindowState>, mx: int, my: int)
    requires
        forall|j: int| 0 <= j < ws.len() ==> !(#[trigger] ws[j]).rect.has(mx, my),
    ensures
        hit(ws, mx, my) is None,
    decreases ws.len(),
{
    if ws.len() > 0 {
        let d = ws.drop_last();
        assert(!ws[ws.len() - 1].rect.has(mx, my));
        assert forall|j: int| 0 <= j < d.len() implies !(#[trigger] d[j]).rect.has(mx, my) by {
            assert(d[j] == ws[j]);
        }
        lemma_hit_none(d, mx, my);
    }
}

/// Pointer events ("mouse_move", "mouse_button" and "mouse") go to the
/// topmost window under the pointer, that is the window latest in the
/// stacking order whose rectangle holds the pointer, with the pointer's
/// position relative to that window; when no window is under the pointer
/// they go nowhere. Any other event goes to the focused window, if any.
pub proof fn lemma_pointer_events_go_to_topmost(s: WindowServer, event_type: Seq<char>, i: int)
    requires
        s.wf(),
    ensures
        (event_type == "mouse_move"@ || event_type == "mouse_button"@ || event_type == "mouse"@)
            && 0 <= i < s.windows().len()
            && s.windows()[i].rect.has(s.mouse().0 as int, s.mouse().1 as int)
            && (forall|j: int| i < j < s.windows().len() ==> !(#[trigger] s.windows()[j]).rect.has(s.mouse().0 as int, s.mouse().1 as int))
            ==> s.dispatch_target(event_type) == Some((
                s.windows()[i].id,
                s.mouse().0 - s.windows()[i].rect.x,
                s.mouse().1 - s.windows()[i].rect.y,
            )),
        (event_type == "mouse_move"@ || event_type == "mouse_button"@ || event_type == "mouse"@)
            && (forall|j: int| 0 <= j < s.windows().len() ==> !(#[trigger] s.windows()[j]).rect.has(s.mouse().0 as int, s.mouse().1 as int))
            ==> s.dispatch_target(event_type) is None,
        event_type == "key"@ ==> s.dispatch_target(event_type) == match s.focused() {
            Some(id) => Some((id, 0int, 0int)),
            None => None,
        },
{
    reveal_strlit("mouse_move");
    reveal_strlit("mouse_button");
    reveal_strlit("mouse");
    reveal_strlit("key");
    let (mx, my) = (s.mouse().0 as int, s.mouse().1 as int);
    if event_type == "mouse_move"@ || event_type == "mouse_button"@ || event_type == "mouse"@ {
        if 0 <= i < s.windows().len() && s.windows()[i].rect.has(mx, my)
            && (forall|j: int| i < j < s.windows().len() ==> !(#[trigger] s.windows()[j]).rect.has(mx, my)) {
            lemma_hit_topmost(s.windows(), mx, my, i);
        }
        if forall|j: int| 0 <= j < s.windows().len() ==> !(#[trigger] s.windows()[j]).rect.has(mx, my) {
            lemma_hit_none(s.windows(), mx, my);
        }
    }
    if event_type == "key"@ {
        assert(!is_pointer_event(event_type)) by {
            assert(event_type.len() != "mouse_move"@.len());
            assert(event_type.len() != "mouse_button"@.len());
            assert(event_type.len() != "mouse"@.len());
        }
    }
}

} // verus!
