//! User-interface widgets: their state, how they react to input events and
//! the parts of their drawing that need no font.
use vstd::prelude::*;

use crate::canvas::{Canvas, paint_where, paint_points, rect_outline, abs};
use crate::color::Color;
use crate::ipc::InputEventData;
use crate::paths;
use crate::rect::Rect;
use crate::strs::{chars_of, concat2, pop_char, push_char};

verus! {

/// Colours and spacing shared by the widgets of a window.
#[derive(Clone, Copy, Debug, PartialEq, Eq, Structural)]
pub struct Theme {
    pub background: Color,
    pub foreground: Color,
    pub primary: Color,
    pub accent: Color,
    pub border: Color,
    pub padding: u32,
    pub margin: u32,
}

impl Theme {
    /// The AyuxOS light theme.
    pub fn default_ayux() -> (t: Theme)
        ensures
            t.background == (Color { r: 240, g: 240, b: 240, a: 255 }),
            t.foreground == (Color { r: 33, g: 33, b: 33, a: 255 }),
            t.primary == (Color { r: 33, g: 150, b: 243, a: 255 }),
            t.accent == (Color { r: 255, g: 64, b: 129, a: 255 }),
            t.border == (Color { r: 200, g: 200, b: 200, a: 255 }),
            t.padding == 8,
            t.margin == 8,
    {
        Theme {
            background: Color::rgb(240, 240, 240),
            foreground: Color::rgb(33, 33, 33),
            primary: Color::rgb(33, 150, 243),
            accent: Color::rgb(255, 64, 129),
            border: Color::rgb(200, 200, 200),
            padding: 8,
            margin: 8,
        }
    }

    /// Where the theme's font file lives: `default.ttf` in the fonts
    /// directory.
    pub fn font_path() -> (p: String)
        ensures
            p@ == paths::AYUX_FONTS@ + "/default.ttf"@,
    {
        concat2(paths::AYUX_FONTS, "/default.ttf")
    }
}

// ---------------------------------------------------------------------
// Keyboard
// ---------------------------------------------------------------------

/// The character that key `code` types on a US layout, with or without
/// shift; `None` for keys that type nothing.
pub open spec fn key_char(code: u16, shift: bool) -> Option<char> {
    if !shift {
        match code {
            2 => Some('1'), 3 => Some('2'), 4 => Some('3'), 5 => Some('4'), 6 => Some('5'),
            7 => Some('6'), 8 => Some('7'), 9 => Some('8'), 10 => Some('9'), 11 => Some('0'),
            12 => Some('-'), 13 => Some('='),
            16 => Some('q'), 17 => Some('w'), 18 => Some('e'), 19 => Some('r'), 20 => Some('t'),
            21 => Some('y'), 22 => Some('u'), 23 => Some('i'), 24 => Some('o'), 25 => Some('p'),
            26 => Some('['), 27 => Some(']'), 43 => Some('\\'),
            30 => Some('a'), 31 => Some('s'), 32 => Some('d'), 33 => Some('f'), 34 => Some('g'),
            35 => Some('h'), 36 => Some('j'), 37 => Some('k'), 38 => Some('l'), 39 => Some(';'),
            40 => Some('\''),
            44 => Some('z'), 45 => Some('x'), 46 => Some('c'), 47 => Some('v'), 48 => Some('b'),
            49 => Some('n'), 50 => Some('m'), 51 => Some(','), 52 => Some('.'), 53 => Some('/'),
            57 => Some(' '),
            _ => None,
        }
    } else {
        match code {
            2 => Some('!'), 3 => Some('@'), 4 => Some('#'), 5 => Some('$'), 6 => Some('%'),
            7 => Some('^'), 8 => Some('&'), 9 => Some('*'), 10 => Some('('), 11 => Some(')'),
            12 => Some('_'), 13 => Some('+'),
            16 => Some('Q'), 17 => Some('W'), 18 => Some('E'), 19 => Some('R'), 20 => Some('T'),
            21 => Some('Y'), 22 => Some('U'), 23 => Some('I'), 24 => Some('O'), 25 => Some('P'),
            26 => Some('{'), 27 => Some('}'), 43 => Some('|'),
            30 => Some('A'), 31 => Some('S'), 32 => Some('D'), 33 => Some('F'), 34 => Some('G'),
            35 => Some('H'), 36 => Some('J'), 37 => Some('K'), 38 => Some('L'), 39 => Some(':'),
            40 => Some('"'),
            44 => Some('Z'), 45 => Some('X'), 46 => Some('C'), 47 => Some('V'), 48 => Some('B'),
            49 => Some('N'), 50 => Some('M'), 51 => Some('<'), 52 => Some('>'), 53 => Some('?'),
            57 => Some(' '),
            _ => None,
        }
    }
}

/// The character typed by key `code`, with or without shift.
pub fn code_to_char(code: u16, shift: bool) -> (r: Option<char>)
    ensures
        r == key_char(code, shift),
{
    if !shift {
        match code {
            2 => Some('1'), 3 => Some('2'), 4 => Some('3'), 5 => Some('4'), 6 => Some('5'),
            7 => Some('6'), 8 => Some('7'), 9 => Some('8'), 10 => Some('9'), 11 => Some('0'),
            12 => Some('-'), 13 => Some('='),
            16 => Some('q'), 17 => Some('w'), 18 => Some('e'), 19 => Some('r'), 20 => Some('t'),
            21 => Some('y'), 22 => Some('u'), 23 => Some('i'), 24 => Some('o'), 25 => Some('p'),
            26 => Some('['), 27 => Some(']'), 43 => Some('\\'),
            30 => Some('a'), 31 => Some('s'), 32 => Some('d'), 33 => Some('f'), 34 => Some('g'),
            35 => Some('h'), 36 => Some('j'), 37 => Some('k'), 38 => Some('l'), 39 => Some(';'),
            40 => Some('\''),
            44 => Some('z'), 45 => Some('x'), 46 => Some('c'), 47 => Some('v'), 48 => Some('b'),
            49 => Some('n'), 50 => Some('m'), 51 => Some(','), 52 => Some('.'), 53 => Some('/'),
            57 => Some(' '),
            _ => None,
        }
    } else {
        match code {
            2 => Some('!'), 3 => Some('@'), 4 => Some('#'), 5 => Some('$'), 6 => Some('%'),
            7 => Some('^'), 8 => Some('&'), 9 => Some('*'), 10 => Some('('), 11 => Some(')'),
            12 => Some('_'), 13 => Some('+'),
            16 => Some('Q'), 17 => Some('W'), 18 => Some('E'), 19 => Some('R'), 20 => Some('T'),
            21 => Some('Y'), 22 => Some('U'), 23 => Some('I'), 24 => Some('O'), 25 => Some('P'),
            26 => Some('{'), 27 => Some('}'), 43 => Some('|'),
            30 => Some('A'), 31 => Some('S'), 32 => Some('D'), 33 => Some('F'), 34 => Some('G'),
            35 => Some('H'), 36 => Some('J'), 37 => Some('K'), 38 => Some('L'), 39 => Some(':'),
            40 => Some('"'),
            44 => Some('Z'), 45 => Some('X'), 46 => Some('C'), 47 => Some('V'), 48 => Some('B'),
            49 => Some('N'), 50 => Some('M'), 51 => Some('<'), 52 => Some('>'), 53 => Some('?'),
            57 => Some(' '),
            _ => None,
        }
    }
}

/// The key codes of the two shift keys, of backspace, enter and escape.
pub open spec fn is_shift_key(code: u16) -> bool {
    code == 42 || code == 54
}

/// How a text field reacts to an event: the new text, focus and shift
/// state, and whether the event was handled. A press focuses the field when
/// it lands inside and unfocuses it otherwise; keys reach only a focused
/// field: shift is tracked, releases are swallowed, backspace deletes the
/// last character, enter and escape give up focus, and any other key types
/// its character, if it has one.
pub open spec fn text_input_step(text: Seq<char>, rect: Rect, focused: bool, shift: bool, event: InputEventData) -> (Seq<char>, bool, bool, bool) {
    match event {
        InputEventData::MouseButton { pressed, local_x, local_y, .. } =>
            if pressed {
                let f = rect.has(local_x as int, local_y as int);
                (text, f, shift, f)
            } else {
                (text, focused, shift, false)
            },
        InputEventData::Key { code, pressed } =>
            if !focused {
                (text, focused, shift, false)
            } else if is_shift_key(code) {
                (text, focused, pressed, true)
            } else if !pressed {
                (text, focused, shift, true)
            } else if code == 14 {
                (if text.len() > 0 { text.drop_last() } else { text }, focused, shift, true)
            } else if code == 28 || code == 1 {
                (text, false, shift, true)
            } else {
                (match key_char(code, shift) { Some(c) => text.push(c), None => text }, focused, shift, true)
            },
        _ => (text, focused, shift, false),
    }
}

/// Applies one event to a text field's state.
fn text_input_event(text: &mut String, rect: Rect, focused: &mut bool, shift: &mut bool, event: &InputEventData) -> (handled: bool)
    requires
        (event matches InputEventData::MouseButton { pressed: true, .. }) ==> rect.fits(),
    ensures
        (final(text)@, *final(focused), *final(shift), handled) == text_input_step(old(text)@, rect, *old(focused), *old(shift), *event),
{
    match event {
        InputEventData::MouseButton { pressed, local_x, local_y, .. } => {
            if *pressed {
                *focused = rect.contains(*local_x, *local_y);
                *focused
            } else {
                false
            }
        },
        InputEventData::Key { code, pressed } => {
            if !*focused {
                return false;
            }
            if *code == 42 || *code == 54 {
                *shift = *pressed;
                return true;
            }
            if !*pressed {
                return true;
            }
            if *code == 14 {
                let _ = pop_char(text);
            } else if *code == 28 || *code == 1 {
                *focused = false;
            } else {
                match code_to_char(*code, *shift) {
                    Some(c) => push_char(text, c),
                    None => {},
                }
            }
            true
        },
        _ => false,
    }
}

/// Typing a character into a focused field and then pressing backspace
/// gives back the text as it was.
pub proof fn lemma_backspace_undoes_typing(text: Seq<char>, rect: Rect, shift: bool, code: u16, x: i32, y: i32)
    requires
        key_char(code, shift) is Some,
        !is_shift_key(code),
        code != 14 && code != 28 && code != 1,
    ensures
        ({
            let s1 = text_input_step(text, rect, true, shift, InputEventData::Key { code, pressed: true });
            let s2 = text_input_step(s1.0, rect, s1.1, s1.2, InputEventData::Key { code: 14, pressed: true });
            s1.3 && s2.3 && s2.0 == text && s2.1 && s2.2 == shift
        }),
{
    let c = key_char(code, shift)->0;
    assert(text.push(c).drop_last() =~= text);
}

/// A field that is not focused ignores keys, and a key never moves the
/// focus to a field.
pub proof fn lemma_keys_need_focus(text: Seq<char>, rect: Rect, shift: bool, code: u16, pressed: bool)
    ensures
        text_input_step(text, rect, false, shift, InputEventData::Key { code, pressed })
            == (text, false, shift, false),
{
}

/// The width in bytes of `c` in UTF-8.
pub open spec fn utf8_width(c: char) -> nat {
    if (c as u32) < 0x80 { 1 } else if (c as u32) < 0x800 { 2 } else if (c as u32) < 0x10000 { 3 } else { 4 }
}

/// The length in bytes of the UTF-8 encoding of `s`.
pub open spec fn utf8_len(s: Seq<char>) -> nat
    decreases s.len(),
{
    if s.len() == 0 { 0 } else { utf8_len(s.drop_last()) + utf8_width(s.last()) }
}

/// What a password field shows: one `*` for each byte of the text's UTF-8
/// encoding.
pub fn masked_text(text: &str) -> (m: String)
    ensures
        m@ == Seq::new(utf8_len(text@), |i: int| '*'),
{
    let cs = chars_of(text);
    let mut m = String::new();
    let mut i: usize = 0;
    while i < cs.len()
        invariant
            cs@ == text@,
            i <= cs@.len(),
            m@ == Seq::new(utf8_len(cs@.subrange(0, i as int)), |k: int| '*'),
        decreases cs.len() - i,
    {
        let c = cs[i];
        let code = c as u32;
        let w: usize = if code < 0x80 { 1 } else if code < 0x800 { 2 } else if code < 0x10000 { 3 } else { 4 };
        let ghost before = m@;
        let mut k: usize = 0;
        while k < w
            invariant
                k <= w,
                m@ == before + Seq::new(k as nat, |j: int| '*'),
                before == Seq::new(utf8_len(cs@.subrange(0, i as int)), |j: int| '*'),
            decreases w - k,
        {
            push_char(&mut m, '*');
            assert(m@ =~= before + Seq::new((k + 1) as nat, |j: int| '*'));
            k = k + 1;
        }
        proof {
            assert(cs@.subrange(0, i + 1).drop_last() =~= cs@.subrange(0, i as int));
            assert(utf8_width(c) == w);
            assert(m@ =~= Seq::new(utf8_len(cs@.subrange(0, i + 1)), |j: int| '*'));
        }
        i = i + 1;
    }
    proof {
        assert(cs@.subrange(0, cs@.len() as int) =~= cs@);
    }
    m
}

// ---------------------------------------------------------------------
// Drawing helpers
// ---------------------------------------------------------------------

/// The buffer after `fill_rect(rect, c)`.
pub open spec fn filled(buf: Seq<u8>, pitch: int, clip: Rect, rect: Rect, c: Color) -> Seq<u8> {
    match rect.overlap(clip) {
        Some(r) => paint_where(buf, pitch, |a: int, b: int| r.has(a, b), c),
        None => buf,
    }
}

/// The buffer after filling `rect` with `fill` and outlining it with
/// `edge`.
pub open spec fn framed(buf: Seq<u8>, pitch: int, clip: Rect, rect: Rect, fill: Color, edge: Color) -> Seq<u8> {
    paint_points(filled(buf, pitch, clip, rect, fill), pitch, clip, rect_outline(rect), edge)
}

/// A rectangle that can be filled and outlined: its edges are `i32`
/// values and its outline fits the line drawer.
pub open spec fn drawable(rect: Rect) -> bool {
    &&& rect.fits()
    &&& rect.width <= i32::MAX
    &&& rect.height <= i32::MAX
    &&& i32::MIN <= rect.x + rect.width - 1
    &&& i32::MIN <= rect.y + rect.height - 1
    &&& 2 * abs(rect.width - 1) <= i32::MAX
    &&& 2 * abs(rect.height - 1) <= i32::MAX + 1
}

/// Fills `rect` and outlines it.
fn draw_framed(canvas: &mut Canvas, rect: Rect, fill: Color, edge: Color)
    requires
        old(canvas).wf(),
        drawable(rect),
    ensures
        final(canvas).wf(),
        final(canvas).width == old(canvas).width,
        final(canvas).height == old(canvas).height,
        final(canvas).pitch == old(canvas).pitch,
        final(canvas).clip_rect == old(canvas).clip_rect,
        final(canvas).buffer@ == framed(old(canvas).buffer@, old(canvas).pitch as int, old(canvas).clip_rect, rect, fill, edge),
{
    canvas.fill_rect(rect, fill);
    canvas.draw_rect(rect, edge);
}

/// The caret of a text field whose text is `text_width` pixels wide: two
/// pixels wide, five pixels in from the top and bottom edges.
pub open spec fn caret_of(rect: Rect, text_width: int) -> Rect {
    Rect { x: (rect.x + 5 + text_width) as i32, y: (rect.y + 5) as i32, width: 2, height: (rect.height - 10) as u32 }
}

/// Computes the caret rectangle of a field.
fn caret_rect(rect: Rect, text_width: u32) -> (c: Rect)
    requires
        text_width <= i32::MAX,
        rect.x + 5 + text_width <= i32::MAX,
        rect.y + 5 <= i32::MAX,
        rect.height >= 10,
    ensures
        c == caret_of(rect, text_width as int),
{
    Rect::new(rect.x + 5 + text_width as i32, rect.y + 5, 2, rect.height - 10)
}

// ---------------------------------------------------------------------
// Widgets
// ---------------------------------------------------------------------

/// A line of text.
pub struct Label {
    pub text: String,
    pub rect: Rect,
}

impl Label {
    /// Paints the label's background (its text is drawn with a font).
    pub fn draw(&self, canvas: &mut Canvas, theme: &Theme)
        requires
            old(canvas).wf(),
            self.rect.fits(),
        ensures
            final(canvas).wf(),
            final(canvas).clip_rect == old(canvas).clip_rect,
            final(canvas).pitch == old(canvas).pitch,
            final(canvas).buffer@ == filled(old(canvas).buffer@, old(canvas).pitch as int, old(canvas).clip_rect, self.rect, theme.background),
    {
        canvas.fill_rect(self.rect, theme.background);
    }

    /// A label reacts to no event.
    pub fn handle_event(&mut self, event: &InputEventData) -> (handled: bool)
        ensures
            !handled,
            *final(self) == *old(self),
    {
        false
    }

    pub fn set_rect(&mut self, rect: Rect)
        ensures
            final(self).rect == rect,
            final(self).text@ == old(self).text@,
    {
        self.rect = rect;
    }

    pub fn get_rect(&self) -> (r: Rect)
        ensures
            r == self.rect,
    {
        self.rect
    }

    /// A label takes no focus.
    pub fn set_focused(&mut self, focused: bool)
        ensures
            *final(self) == *old(self),
    {
    }

    pub fn is_focused(&self) -> (f: bool)
        ensures
            !f,
    {
        false
    }
}

/// A push button: pressed while the mouse button is held down on it,
/// clicked when the button is released on it.
pub struct Button {
    pub text: String,
    pub rect: Rect,
    pub pressed: bool,
}

impl Button {
    /// Paints the button's face and border (its caption is drawn with a
    /// font): the primary colour while pressed, the border colour
    /// otherwise.
    pub fn draw(&self, canvas: &mut Canvas, theme: &Theme)
        requires
            old(canvas).wf(),
            drawable(self.rect),
        ensures
            final(canvas).wf(),
            final(canvas).clip_rect == old(canvas).clip_rect,
            final(canvas).pitch == old(canvas).pitch,
            final(canvas).buffer@ == framed(old(canvas).buffer@, old(canvas).pitch as int, old(canvas).clip_rect, self.rect,
                if self.pressed { theme.primary } else { theme.border }, theme.foreground),
    {
        let color = if self.pressed { theme.primary } else { theme.border };
        draw_framed(canvas, self.rect, color, theme.foreground);
    }

    /// Handles a mouse button event: inside the button, the button follows
    /// the mouse button and a release is a click; outside, it is released.
    /// Returns whether the event was handled and whether it was a click.
    pub fn handle_event(&mut self, event: &InputEventData) -> (r: (bool, bool))
        requires
            (event is MouseButton) ==> old(self).rect.fits(),
        ensures
            final(self).rect == old(self).rect,
            final(self).text@ == old(self).text@,
            match *event {
                InputEventData::MouseButton { pressed, local_x, local_y, .. } =>
                    if old(self).rect.has(local_x as int, local_y as int) {
                        final(self).pressed == pressed && r == (true, !pressed)
                    } else {
                        !final(self).pressed && r == (false, false)
                    },
                _ => final(self).pressed == old(self).pressed && r == (false, false),
            },
    {
        match event {
            InputEventData::MouseButton { pressed, local_x, local_y, .. } => {
                if self.rect.contains(*local_x, *local_y) {
                    self.pressed = *pressed;
                    return (true, !*pressed);
                }
                self.pressed = false;
                (false, false)
            },
            _ => (false, false),
        }
    }

    pub fn set_rect(&mut self, rect: Rect)
        ensures
            final(self).rect == rect,
            final(self).pressed == old(self).pressed,
            final(self).text@ == old(self).text@,
    {
        self.rect = rect;
    }

    pub fn get_rect(&self) -> (r: Rect)
        ensures
            r == self.rect,
    {
        self.rect
    }

    /// A button takes no focus.
    pub fn set_focused(&mut self, focused: bool)
        ensures
            *final(self) == *old(self),
    {
    }

    pub fn is_focused(&self) -> (f: bool)
        ensures
            !f,
    {
        false
    }
}

/// A plain bordered area.
pub struct Panel {
    pub rect: Rect,
}

impl Panel {
    /// Fills the panel with the background colour and outlines it.
    pub fn draw(&self, canvas: &mut Canvas, theme: &Theme)
        requires
            old(canvas).wf(),
            drawable(self.rect),
        ensures
            final(canvas).wf(),
            final(canvas).clip_rect == old(canvas).clip_rect,
            final(canvas).pitch == old(canvas).pitch,
            final(canvas).buffer@ == framed(old(canvas).buffer@, old(canvas).pitch as int, old(canvas).clip_rect, self.rect,
                theme.background, theme.border),
    {
        draw_framed(canvas, self.rect, theme.background, theme.border);
    }

    /// A panel reacts to no event.
    pub fn handle_event(&mut self, event: &InputEventData) -> (handled: bool)
        ensures
            !handled,
            *final(self) == *old(self),
    {
        false
    }

    pub fn set_rect(&mut self, rect: Rect)
        ensures
            final(self).rect == rect,
    {
        self.rect = rect;
    }

    pub fn get_rect(&self) -> (r: Rect)
        ensures
            r == self.rect,
    {
        self.rect
    }

    /// A panel takes no focus.
    pub fn set_focused(&mut self, focused: bool)
        ensures
            *final(self) == *old(self),
    {
    }

    pub fn is_focused(&self) -> (f: bool)
        ensures
            !f,
    {
        false
    }
}

/// A single-line text field.
pub struct TextBox {
    pub text: String,
    pub rect: Rect,
    pub focused: bool,
    pub shift_pressed: bool,
    pub caret_visible: bool,
}

/// A single-line text field that shows its text masked.
pub struct PasswordBox {
    pub text: String,
    pub rect: Rect,
    pub focused: bool,
    pub shift_pressed: bool,
    pub caret_visible: bool,
}

/// The caret blinks: after more than half a second it toggles, and the
/// timer restarts.
pub open spec fn caret_blinks(focused: bool, elapsed_ms: u128) -> bool {
    focused && elapsed_ms > 500
}

impl TextBox {
    /// An empty, unfocused field with a visible caret.
    pub fn new(rect: Rect) -> (t: TextBox)
        ensures
            t.text@ == Seq::<char>::empty(),
            t.rect == rect,
            !t.focused,
            !t.shift_pressed,
            t.caret_visible,
    {
        TextBox { text: String::new(), rect, focused: false, shift_pressed: false, caret_visible: true }
    }

    /// Paints the field white with a border in the primary colour while
    /// focused and the border colour otherwise (the text is drawn with a
    /// font).
    pub fn draw(&self, canvas: &mut Canvas, theme: &Theme)
        requires
            old(canvas).wf(),
            drawable(self.rect),
        ensures
            final(canvas).wf(),
            final(canvas).clip_rect == old(canvas).clip_rect,
            final(canvas).pitch == old(canvas).pitch,
            final(canvas).buffer@ == framed(old(canvas).buffer@, old(canvas).pitch as int, old(canvas).clip_rect, self.rect,
                Color { r: 255, g: 255, b: 255, a: 255 }, if self.focused { theme.primary } else { theme.border }),
    {
        let border = if self.focused { theme.primary } else { theme.border };
        draw_framed(canvas, self.rect, Color::white(), border);
    }

    /// Advances the caret's blinking by the milliseconds since the last
    /// toggle; returns whether it toggled, so the timer restarts.
    pub fn tick_caret(&mut self, elapsed_ms: u128) -> (toggled: bool)
        ensures
            toggled == caret_blinks(old(self).focused, elapsed_ms),
            final(self).caret_visible == (old(self).caret_visible != toggled),
            final(self).text@ == old(self).text@,
            final(self).rect == old(self).rect,
            final(self).focused == old(self).focused,
            final(self).shift_pressed == old(self).shift_pressed,
    {
        if self.focused && elapsed_ms > 500 {
            self.caret_visible = !self.caret_visible;
            true
        } else {
            false
        }
    }

    /// The caret after text `text_width` pixels wide.
    pub fn caret_rect(&self, text_width: u32) -> (c: Rect)
        requires
            text_width <= i32::MAX,
            self.rect.x + 5 + text_width <= i32::MAX,
            self.rect.y + 5 <= i32::MAX,
            self.rect.height >= 10,
        ensures
            c == caret_of(self.rect, text_width as int),
    {
        caret_rect(self.rect, text_width)
    }

    /// Applies an input event (see `text_input_step`).
    pub fn handle_event(&mut self, event: &InputEventData) -> (handled: bool)
        requires
            (event matches InputEventData::MouseButton { pressed: true, .. }) ==> old(self).rect.fits(),
        ensures
            (final(self).text@, final(self).focused, final(self).shift_pressed, handled)
                == text_input_step(old(self).text@, old(self).rect, old(self).focused, old(self).shift_pressed, *event),
            final(self).rect == old(self).rect,
            final(self).caret_visible == old(self).caret_visible,
    {
        text_input_event(&mut self.text, self.rect, &mut self.focused, &mut self.shift_pressed, event)
    }

    pub fn set_rect(&mut self, rect: Rect)
        ensures
            final(self).rect == rect,
            final(self).text@ == old(self).text@,
            final(self).focused == old(self).focused,
            final(self).shift_pressed == old(self).shift_pressed,
            final(self).caret_visible == old(self).caret_visible,
    {
        self.rect = rect;
    }

    pub fn get_rect(&self) -> (r: Rect)
        ensures
            r == self.rect,
    {
        self.rect
    }

    pub fn set_focused(&mut self, focused: bool)
        ensures
            final(self).focused == focused,
            final(self).text@ == old(self).text@,
            final(self).rect == old(self).rect,
            final(self).shift_pressed == old(self).shift_pressed,
            final(self).caret_visible == old(self).caret_visible,
    {
        self.focused = focused;
    }

    pub fn is_focused(&self) -> (f: bool)
        ensures
            f == self.focused,
    {
        self.focused
    }
}

impl PasswordBox {
    /// An empty, unfocused field with a visible caret.
    pub fn new(rect: Rect) -> (t: PasswordBox)
        ensures
            t.text@ == Seq::<char>::empty(),
            t.rect == rect,
            !t.focused,
            !t.shift_pressed,
            t.caret_visible,
    {
        PasswordBox { text: String::new(), rect, focused: false, shift_pressed: false, caret_visible: true }
    }

    /// What the field shows in place of its text.
    pub fn masked(&self) -> (m: String)
        ensures
            m@ == Seq::new(utf8_len(self.text@), |i: int| '*'),
    {
        masked_text(self.text.as_str())
    }

    /// Paints the field as a `TextBox` does (the masked text is drawn with
    /// a font).
    pub fn draw(&self, canvas: &mut Canvas, theme: &Theme)
        requires
            old(canvas).wf(),
            drawable(self.rect),
        ensures
            final(canvas).wf(),
            final(canvas).clip_rect == old(canvas).clip_rect,
            final(canvas).pitch == old(canvas).pitch,
            final(canvas).buffer@ == framed(old(canvas).buffer@, old(canvas).pitch as int, old(canvas).clip_rect, self.rect,
                Color { r: 255, g: 255, b: 255, a: 255 }, if self.focused { theme.primary } else { theme.border }),
    {
        let border = if self.focused { theme.primary } else { theme.border };
        draw_framed(canvas, self.rect, Color::white(), border);
    }

    /// Advances the caret's blinking, as `TextBox::tick_caret` does.
    pub fn tick_caret(&mut self, elapsed_ms: u128) -> (toggled: bool)
        ensures
            toggled == caret_blinks(old(self).focused, elapsed_ms),
            final(self).caret_visible == (old(self).caret_visible != toggled),
            final(self).text@ == old(self).text@,
            final(self).rect == old(self).rect,
            final(self).focused == old(self).focused,
            final(self).shift_pressed == old(self).shift_pressed,
    {
        if self.focused && elapsed_ms > 500 {
            self.caret_visible = !self.caret_visible;
            true
        } else {
            false
        }
    }

    /// The caret after masked text `text_width` pixels wide.
    pub fn caret_rect(&self, text_width: u32) -> (c: Rect)
        requires
            text_width <= i32::MAX,
            self.rect.x + 5 + text_width <= i32::MAX,
            self.rect.y + 5 <= i32::MAX,
            self.rect.height >= 10,
        ensures
            c == caret_of(self.rect, text_width as int),
    {
        caret_rect(self.rect, text_width)
    }

    /// Applies an input event (see `text_input_step`).
    pub fn handle_event(&mut self, event: &InputEventData) -> (handled: bool)
        requires
            (event matches InputEventData::MouseButton { pressed: true, .. }) ==> old(self).rect.fits(),
        ensures
            (final(self).text@, final(self).focused, final(self).shift_pressed, handled)
                == text_input_step(old(self).text@, old(self).rect, old(self).focused, old(self).shift_pressed, *event),
            final(self).rect == old(self).rect,
            final(self).caret_visible == old(self).caret_visible,
    {
        text_input_event(&mut self.text, self.rect, &mut self.focused, &mut self.shift_pressed, event)
    }

    pub fn set_rect(&mut self, rect: Rect)
        ensures
            final(self).rect == rect,
            final(self).text@ == old(self).text@,
            final(self).focused == old(self).focused,
            final(self).shift_pressed == old(self).shift_pressed,
            final(self).caret_visible == old(self).caret_visible,
    {
        self.rect = rect;
    }

    pub fn get_rect(&self) -> (r: Rect)
        ensures
            r == self.rect,
    {
        self.rect
    }

    pub fn set_focused(&mut self, focused: bool)
        ensures
            final(self).focused == focused,
            final(self).text@ == old(self).text@,
            final(self).rect == old(self).rect,
            final(self).shift_pressed == old(self).shift_pressed,
            final(self).caret_visible == old(self).caret_visible,
    {
        self.focused = focused;
    }

    pub fn is_focused(&self) -> (f: bool)
        ensures
            f == self.focused,
    {
        self.focused
    }
}

/// A terminal view: the lines of output, of which the last that fit are
/// shown, one every 20 pixels.
pub struct Terminal {
    pub buffer: Vec<String>,
    pub rect: Rect,
}

impl Terminal {
    /// The index of the first line shown: as many of the last lines as fit
    /// in the view's height.
    pub fn visible_start(&self) -> (s: usize)
        ensures
            s == (if self.buffer@.len() > self.rect.height / 20 { self.buffer@.len() - self.rect.height / 20 } else { 0 }),
    {
        let max_lines = (self.rect.height / 20) as usize;
        if self.buffer.len() > max_lines { self.buffer.len() - max_lines } else { 0 }
    }

    /// Paints the view black (the lines are drawn with a font).
    pub fn draw(&self, canvas: &mut Canvas)
        requires
            old(canvas).wf(),
            self.rect.fits(),
        ensures
            final(canvas).wf(),
            final(canvas).clip_rect == old(canvas).clip_rect,
            final(canvas).pitch == old(canvas).pitch,
            final(canvas).buffer@ == filled(old(canvas).buffer@, old(canvas).pitch as int, old(canvas).clip_rect, self.rect,
                Color { r: 0, g: 0, b: 0, a: 255 }),
    {
        canvas.fill_rect(self.rect, Color::black());
    }

    /// Handles an input event: a press inside the view is handled, and a
    /// key press is handled and handed on (its code is returned).
    pub fn handle_event(&mut self, event: &InputEventData) -> (r: (bool, Option<u16>))
        requires
            (event matches InputEventData::MouseButton { pressed: true, .. }) ==> old(self).rect.fits(),
        ensures
            final(self).rect == old(self).rect,
            final(self).buffer@ == old(self).buffer@,
            r == match *event {
                InputEventData::MouseButton { pressed, local_x, local_y, .. } =>
                    (pressed && old(self).rect.has(local_x as int, local_y as int), None),
                InputEventData::Key { code, pressed } => if pressed { (true, Some(code)) } else { (false, None) },
                _ => (false, None),
            },
    {
        match event {
            InputEventData::MouseButton { pressed, local_x, local_y, .. } => {
                if *pressed && self.rect.contains(*local_x, *local_y) {
                    return (true, None);
                }
                (false, None)
            },
            InputEventData::Key { code, pressed } => {
                if *pressed {
                    (true, Some(*code))
                } else {
                    (false, None)
                }
            },
            _ => (false, None),
        }
    }

    pub fn set_rect(&mut self, rect: Rect)
        ensures
            final(self).rect == rect,
            final(self).buffer@ == old(self).buffer@,
    {
        self.rect = rect;
    }

    pub fn get_rect(&self) -> (r: Rect)
        ensures
            r == self.rect,
    {
        self.rect
    }

    /// The terminal keeps no focus state.
    pub fn set_focused(&mut self, focused: bool)
        ensures
            final(self).rect == old(self).rect,
            final(self).buffer@ == old(self).buffer@,
    {
    }

    /// The terminal always has the keyboard.
    pub fn is_focused(&self) -> (f: bool)
        ensures
            f,
    {
        true
    }
}

/// The codes of the letter keys.
pub open spec fn is_letter_key(code: u16) -> bool {
    16 <= code <= 25 || 30 <= code <= 38 || 44 <= code <= 50
}

/// The key that types a lower-case letter.
spec fn letter_index(c: char) -> int {
    match c {
        'q' => 16, 'w' => 17, 'e' => 18, 'r' => 19, 't' => 20, 'y' => 21, 'u' => 22, 'i' => 23, 'o' => 24, 'p' => 25,
        'a' => 30, 's' => 31, 'd' => 32, 'f' => 33, 'g' => 34, 'h' => 35, 'j' => 36, 'k' => 37, 'l' => 38,
        'z' => 44, 'x' => 45, 'c' => 46, 'v' => 47, 'b' => 48, 'n' => 49, 'm' => 50,
        _ => -1,
    }
}

proof fn letter_round_trip(code: u16)
    requires
        is_letter_key(code),
    ensures
        key_char(code, false) is Some,
        key_char(code, true) is Some,
        letter_index(key_char(code, false)->0) == code as int,
        (key_char(code, true)->0 as u32) == (key_char(code, false)->0 as u32) - 32,
{
}

/// The keys type the US layout. Row by row, unshifted, they type
/// "1234567890-=" (codes 2 to 13), "qwertyuiop[]" (16 to 27),
/// "asdfghjkl;'" (30 to 40), "\\" (43), "zxcvbnm,./" (44 to 53) and a space
/// (57); with shift, "!@#$%^&*()_+", "QWERTYUIOP{}", "ASDFGHJKL:\"", "|",
/// "ZXCVBNM<>?" and a space. A letter key types the same letter in upper
/// case with shift, no two letter keys type the same letter, and every
/// other key types nothing.
pub proof fn lemma_us_layout()
    ensures
        forall|i: int| 0 <= i < 12 ==> key_char((2 + i) as u16, false) == Some("1234567890-="@[i]),
        forall|i: int| 0 <= i < 12 ==> key_char((2 + i) as u16, true) == Some("!@#$%^&*()_+"@[i]),
        forall|i: int| 0 <= i < 12 ==> key_char((16 + i) as u16, false) == Some("qwertyuiop[]"@[i]),
        forall|i: int| 0 <= i < 12 ==> key_char((16 + i) as u16, true) == Some("QWERTYUIOP{}"@[i]),
        forall|i: int| 0 <= i < 11 ==> key_char((30 + i) as u16, false) == Some("asdfghjkl;'"@[i]),
        forall|i: int| 0 <= i < 11 ==> key_char((30 + i) as u16, true) == Some("ASDFGHJKL:\""@[i]),
        forall|i: int| 0 <= i < 1 ==> key_char((43 + i) as u16, false) == Some("\\"@[i]),
        forall|i: int| 0 <= i < 1 ==> key_char((43 + i) as u16, true) == Some("|"@[i]),
        forall|i: int| 0 <= i < 10 ==> key_char((44 + i) as u16, false) == Some("zxcvbnm,./"@[i]),
        forall|i: int| 0 <= i < 10 ==> key_char((44 + i) as u16, true) == Some("ZXCVBNM<>?"@[i]),
        forall|i: int| 0 <= i < 1 ==> key_char((57 + i) as u16, false) == Some(" "@[i]),
        forall|i: int| 0 <= i < 1 ==> key_char((57 + i) as u16, true) == Some(" "@[i]),
        forall|code: u16, shift: bool| !(2 <= code <= 13 || 16 <= code <= 27 || 30 <= code <= 40 || 43 <= code <= 53 || code == 57)
            ==> #[trigger] key_char(code, shift) is None,
        forall|code: u16| is_letter_key(code) ==> (key_char(code, true)->0 as u32) == (#[trigger] key_char(code, false)->0 as u32) - 32,
        forall|a: u16, b: u16| is_letter_key(a) && is_letter_key(b) && a != b
            ==> #[trigger] key_char(a, false) != #[trigger] key_char(b, false),
{
    reveal_strlit("1234567890-=");
    reveal_strlit("!@#$%^&*()_+");
    reveal_strlit("qwertyuiop[]");
    reveal_strlit("QWERTYUIOP{}");
    reveal_strlit("asdfghjkl;'");
    reveal_strlit("ASDFGHJKL:\"");
    reveal_strlit("\\");
    reveal_strlit("|");
    reveal_strlit("zxcvbnm,./");
    reveal_strlit("ZXCVBNM<>?");
    reveal_strlit(" ");
    reveal_strlit(" ");
    assert forall|i: int| 0 <= i < 12 implies key_char((2 + i) as u16, false) == Some("1234567890-="@[i]) by {
        if i == 0 {
            assert("1234567890-="@[0] == '1');
        } else if i == 1 {
            assert("1234567890-="@[1] == '2');
        } else if i == 2 {
            assert("1234567890-="@[2] == '3');
        } else if i == 3 {
            assert("1234567890-="@[3] == '4');
        } else if i == 4 {
            assert("1234567890-="@[4] == '5');
        } else if i == 5 {
            assert("1234567890-="@[5] == '6');
        } else if i == 6 {
            assert("1234567890-="@[6] == '7');
        } else if i == 7 {
            assert("1234567890-="@[7] == '8');
        } else if i == 8 {
            assert("1234567890-="@[8] == '9');
        } else if i == 9 {
            assert("1234567890-="@[9] == '0');
        } else if i == 10 {
            assert("1234567890-="@[10] == '-');
        } else if i == 11 {
            assert("1234567890-="@[11] == '=');
        }
    }
    assert forall|i: int| 0 <= i < 12 implies key_char((2 + i) as u16, true) == Some("!@#$%^&*()_+"@[i]) by {
        if i == 0 {
            assert("!@#$%^&*()_+"@[0] == '!');
        } else if i == 1 {
            assert("!@#$%^&*()_+"@[1] == '@');
        } else if i == 2 {
            assert("!@#$%^&*()_+"@[2] == '#');
        } else if i == 3 {
            assert("!@#$%^&*()_+"@[3] == '$');
        } else if i == 4 {
            assert("!@#$%^&*()_+"@[4] == '%');
        } else if i == 5 {
            assert("!@#$%^&*()_+"@[5] == '^');
        } else if i == 6 {
            assert("!@#$%^&*()_+"@[6] == '&');
        } else if i == 7 {
            assert("!@#$%^&*()_+"@[7] == '*');
        } else if i == 8 {
            assert("!@#$%^&*()_+"@[8] == '(');
        } else if i == 9 {
            assert("!@#$%^&*()_+"@[9] == ')');
        } else if i == 10 {
            assert("!@#$%^&*()_+"@[10] == '_');
        } else if i == 11 {
            assert("!@#$%^&*()_+"@[11] == '+');
        }
    }
    assert forall|i: int| 0 <= i < 12 implies key_char((16 + i) as u16, false) == Some("qwertyuiop[]"@[i]) by {
        if i == 0 {
            assert("qwertyuiop[]"@[0] == 'q');
        } else if i == 1 {
            assert("qwertyuiop[]"@[1] == 'w');
        } else if i == 2 {
            assert("qwertyuiop[]"@[2] == 'e');
        } else if i == 3 {
            assert("qwertyuiop[]"@[3] == 'r');
        } else if i == 4 {
            assert("qwertyuiop[]"@[4] == 't');
        } else if i == 5 {
            assert("qwertyuiop[]"@[5] == 'y');
        } else if i == 6 {
            assert("qwertyuiop[]"@[6] == 'u');
        } else if i == 7 {
            assert("qwertyuiop[]"@[7] == 'i');
        } else if i == 8 {
            assert("qwertyuiop[]"@[8] == 'o');
        } else if i == 9 {
            assert("qwertyuiop[]"@[9] == 'p');
        } else if i == 10 {
            assert("qwertyuiop[]"@[10] == '[');
        } else if i == 11 {
            assert("qwertyuiop[]"@[11] == ']');
        }
    }
    assert forall|i: int| 0 <= i < 12 implies key_char((16 + i) as u16, true) == Some("QWERTYUIOP{}"@[i]) by {
        if i == 0 {
            assert("QWERTYUIOP{}"@[0] == 'Q');
        } else if i == 1 {
            assert("QWERTYUIOP{}"@[1] == 'W');
        } else if i == 2 {
            assert("QWERTYUIOP{}"@[2] == 'E');
        } else if i == 3 {
            assert("QWERTYUIOP{}"@[3] == 'R');
        } else if i == 4 {
            assert("QWERTYUIOP{}"@[4] == 'T');
        } else if i == 5 {
            assert("QWERTYUIOP{}"@[5] == 'Y');
        } else if i == 6 {
            assert("QWERTYUIOP{}"@[6] == 'U');
        } else if i == 7 {
            assert("QWERTYUIOP{}"@[7] == 'I');
        } else if i == 8 {
            assert("QWERTYUIOP{}"@[8] == 'O');
        } else if i == 9 {
            assert("QWERTYUIOP{}"@[9] == 'P');
        } else if i == 10 {
            assert("QWERTYUIOP{}"@[10] == '{');
        } else if i == 11 {
            assert("QWERTYUIOP{}"@[11] == '}');
        }
    }
    assert forall|i: int| 0 <= i < 11 implies key_char((30 + i) as u16, false) == Some("asdfghjkl;'"@[i]) by {
        if i == 0 {
            assert("asdfghjkl;'"@[0] == 'a');
        } else if i == 1 {
            assert("asdfghjkl;'"@[1] == 's');
        } else if i == 2 {
            assert("asdfghjkl;'"@[2] == 'd');
        } else if i == 3 {
            assert("asdfghjkl;'"@[3] == 'f');
        } else if i == 4 {
            assert("asdfghjkl;'"@[4] == 'g');
        } else if i == 5 {
            assert("asdfghjkl;'"@[5] == 'h');
        } else if i == 6 {
            assert("asdfghjkl;'"@[6] == 'j');
        } else if i == 7 {
            assert("asdfghjkl;'"@[7] == 'k');
        } else if i == 8 {
            assert("asdfghjkl;'"@[8] == 'l');
        } else if i == 9 {
            assert("asdfghjkl;'"@[9] == ';');
        } else if i == 10 {
            assert("asdfghjkl;'"@[10] == '\'');
        }
    }
    assert forall|i: int| 0 <= i < 11 implies key_char((30 + i) as u16, true) == Some("ASDFGHJKL:\""@[i]) by {
        if i == 0 {
            assert("ASDFGHJKL:\""@[0] == 'A');
        } else if i == 1 {
            assert("ASDFGHJKL:\""@[1] == 'S');
        } else if i == 2 {
            assert("ASDFGHJKL:\""@[2] == 'D');
        } else if i == 3 {
            assert("ASDFGHJKL:\""@[3] == 'F');
        } else if i == 4 {
            assert("ASDFGHJKL:\""@[4] == 'G');
        } else if i == 5 {
            assert("ASDFGHJKL:\""@[5] == 'H');
        } else if i == 6 {
            assert("ASDFGHJKL:\""@[6] == 'J');
        } else if i == 7 {
            assert("ASDFGHJKL:\""@[7] == 'K');
        } else if i == 8 {
            assert("ASDFGHJKL:\""@[8] == 'L');
        } else if i == 9 {
            assert("ASDFGHJKL:\""@[9] == ':');
        } else if i == 10 {
            assert("ASDFGHJKL:\""@[10] == '"');
        }
    }
    assert forall|i: int| 0 <= i < 1 implies key_char((43 + i) as u16, false) == Some("\\"@[i]) by {
        if i == 0 {
            assert("\\"@[0] == '\\');
        }
    }
    assert forall|i: int| 0 <= i < 1 implies key_char((43 + i) as u16, true) == Some("|"@[i]) by {
        if i == 0 {
            assert("|"@[0] == '|');
        }
    }
    assert forall|i: int| 0 <= i < 10 implies key_char((44 + i) as u16, false) == Some("zxcvbnm,./"@[i]) by {
        if i == 0 {
            assert("zxcvbnm,./"@[0] == 'z');
        } else if i == 1 {
            assert("zxcvbnm,./"@[1] == 'x');
        } else if i == 2 {
            assert("zxcvbnm,./"@[2] == 'c');
        } else if i == 3 {
            assert("zxcvbnm,./"@[3] == 'v');
        } else if i == 4 {
            assert("zxcvbnm,./"@[4] == 'b');
        } else if i == 5 {
            assert("zxcvbnm,./"@[5] == 'n');
        } else if i == 6 {
            assert("zxcvbnm,./"@[6] == 'm');
        } else if i == 7 {
            assert("zxcvbnm,./"@[7] == ',');
        } else if i == 8 {
            assert("zxcvbnm,./"@[8] == '.');
        } else if i == 9 {
            assert("zxcvbnm,./"@[9] == '/');
        }
    }
    assert forall|i: int| 0 <= i < 10 implies key_char((44 + i) as u16, true) == Some("ZXCVBNM<>?"@[i]) by {
        if i == 0 {
            assert("ZXCVBNM<>?"@[0] == 'Z');
        } else if i == 1 {
            assert("ZXCVBNM<>?"@[1] == 'X');
        } else if i == 2 {
            assert("ZXCVBNM<>?"@[2] == 'C');
        } else if i == 3 {
            assert("ZXCVBNM<>?"@[3] == 'V');
        } else if i == 4 {
            assert("ZXCVBNM<>?"@[4] == 'B');
        } else if i == 5 {
            assert("ZXCVBNM<>?"@[5] == 'N');
        } else if i == 6 {
            assert("ZXCVBNM<>?"@[6] == 'M');
        } else if i == 7 {
            assert("ZXCVBNM<>?"@[7] == '<');
        } else if i == 8 {
            assert("ZXCVBNM<>?"@[8] == '>');
        } else if i == 9 {
            assert("ZXCVBNM<>?"@[9] == '?');
        }
    }
    assert forall|i: int| 0 <= i < 1 implies key_char((57 + i) as u16, false) == Some(" "@[i]) by {
        if i == 0 {
            assert(" "@[0] == ' ');
        }
    }
    assert forall|i: int| 0 <= i < 1 implies key_char((57 + i) as u16, true) == Some(" "@[i]) by {
        if i == 0 {
            assert(" "@[0] == ' ');
        }
    }
    assert forall|code: u16| is_letter_key(code) implies (key_char(code, true)->0 as u32) == (#[trigger] key_char(code, false)->0 as u32) - 32 by {
        letter_round_trip(code);
    }
    assert forall|a: u16, b: u16| is_letter_key(a) && is_letter_key(b) && a != b
        implies #[trigger] key_char(a, false) != #[trigger] key_char(b, false) by {
        letter_round_trip(a);
        letter_round_trip(b);
    }
}

} // verus!
