//! The small programs that show what a window is made of: a frame without a
//! title bar over a backdrop, sample text in two renderings, and text over a
//! tint. Messages and pixels are the system's; what a message means is
//! decided here.
use vstd::prelude::*;
use vstd::string::*;
use crate::text;
use crate::text::{decimal_text, joined, joined3, pad};

verus! {

/// A rectangle of whole pixels.
#[derive(Clone, Copy, Debug, PartialEq, Eq, Structural)]
pub struct Rect {
    pub left: i32,
    pub top: i32,
    pub right: i32,
    pub bottom: i32,
}

/// What of a window lies under a point.
#[derive(Clone, Copy, Debug, PartialEq, Eq, Structural)]
pub enum Grip {
    TopLeft,
    TopRight,
    BottomLeft,
    BottomRight,
    Top,
    Bottom,
    Left,
    Right,
    /// The strip a window is dragged by.
    Caption,
    Client,
}

/// The height of the draggable strip, the width of the sidebar and the gap
/// around the content pane, at 96 dots per inch.
pub const CAPTION_H: i32 = 40;

pub const SIDEBAR_W: i32 = 260;

pub const PANE_INSET: i32 = 12;

/// Sixteen bits as a signed number.
pub open spec fn signed_half(n: int) -> int {
    if n % 0x1_0000 >= 0x8000 { n % 0x1_0000 - 0x1_0000 } else { n % 0x1_0000 }
}

fn half(n: u64) -> (r: i32)
    ensures
        r == signed_half(n as int),
{
    let low: u64 = n % 0x1_0000;
    if low >= 0x8000 { low as i32 - 0x1_0000 } else { low as i32 }
}

/// The point a mouse message carries: two signed halves of its word. Screens
/// to the left of the first have negative coordinates.
pub fn point_of(word: u64) -> (r: (i32, i32))
    ensures
        r.0 == signed_half(word as int),
        r.1 == signed_half(word as int / 0x1_0000),
{
    (half(word), half(word / 0x1_0000))
}

/// The size a size message carries, never empty.
pub fn size_of(word: u64) -> (r: (u32, u32))
    ensures
        r.0 == (if word % 0x1_0000 == 0 { 1 } else { word % 0x1_0000 }),
        r.1 == (if (word / 0x1_0000) % 0x1_0000 == 0 { 1 } else { (word / 0x1_0000) % 0x1_0000 }),
{
    let w: u64 = word % 0x1_0000;
    let h: u64 = (word / 0x1_0000) % 0x1_0000;
    (if w == 0 { 1 } else { w as u32 }, if h == 0 { 1 } else { h as u32 })
}

/// A length at 96 dots per inch, at the window's own.
pub open spec fn scaled_by(dpi: int, v: int) -> int {
    if dpi <= 0 { v } else { v * dpi / 96 }
}

pub fn scaled(dpi: i32, v: i32) -> (r: i32)
    requires
        v >= 0,
        dpi > 0 ==> v * dpi <= i32::MAX,
    ensures
        r == scaled_by(dpi as int, v as int),
{
    if dpi <= 0 {
        v
    } else {
        assert(0 <= v * dpi) by (nonlinear_arith)
            requires
                v >= 0,
                dpi > 0,
        ;
        v * dpi / 96
    }
}

/// The corner or edge within a border of `border` pixels, when there is one.
pub open spec fn edge_at(x: int, y: int, rc: Rect, border: int) -> Option<Grip> {
    let left = x < rc.left + border;
    let right = x >= rc.right - border;
    let top = y < rc.top + border;
    let bottom = y >= rc.bottom - border;
    if top && left {
        Some(Grip::TopLeft)
    } else if top && right {
        Some(Grip::TopRight)
    } else if bottom && left {
        Some(Grip::BottomLeft)
    } else if bottom && right {
        Some(Grip::BottomRight)
    } else if top {
        Some(Grip::Top)
    } else if bottom {
        Some(Grip::Bottom)
    } else if left {
        Some(Grip::Left)
    } else if right {
        Some(Grip::Right)
    } else {
        None
    }
}

/// What of the window lies under a point: the edges it is resized by unless
/// it is maximized, then the strip it is dragged by, then its content.
pub open spec fn grip_at(x: int, y: int, rc: Rect, border: int, caption: int, maximized: bool) -> Grip {
    let edge = if maximized { None } else { edge_at(x, y, rc, border) };
    match edge {
        Some(g) => g,
        None => if y < rc.top + caption { Grip::Caption } else { Grip::Client },
    }
}

pub fn hit_test(x: i32, y: i32, rc: Rect, border: i32, caption: i32, maximized: bool) -> (r: Grip)
    ensures
        r == grip_at(x as int, y as int, rc, border as int, caption as int, maximized),
{
    let (x, y): (i64, i64) = (x as i64, y as i64);
    let b: i64 = border as i64;
    if !maximized {
        let left: bool = x < rc.left as i64 + b;
        let right: bool = x >= rc.right as i64 - b;
        let top: bool = y < rc.top as i64 + b;
        let bottom: bool = y >= rc.bottom as i64 - b;
        if top && left {
            return Grip::TopLeft;
        }
        if top && right {
            return Grip::TopRight;
        }
        if bottom && left {
            return Grip::BottomLeft;
        }
        if bottom && right {
            return Grip::BottomRight;
        }
        if top {
            return Grip::Top;
        }
        if bottom {
            return Grip::Bottom;
        }
        if left {
            return Grip::Left;
        }
        if right {
            return Grip::Right;
        }
    }
    if y < rc.top as i64 + caption as i64 { Grip::Caption } else { Grip::Client }
}

/// Where the client area starts once the frame has been worked out: the
/// caption strip becomes client area, and a maximized window, which overflows
/// the screen by its frame, gets that back.
pub fn client_top(original_top: i32, maximized: bool, frame: i32) -> (r: i32)
    requires
        maximized ==> i32::MIN <= original_top + frame <= i32::MAX,
    ensures
        r == (if maximized { original_top + frame } else { original_top as int }),
{
    if maximized { original_top + frame } else { original_top }
}

/// What is painted: a hairline where the translucent sidebar ends, and the
/// opaque content pane with its corner radius.
#[derive(Clone, Copy, Debug, PartialEq, Eq, Structural)]
pub struct Painted {
    pub hairline: Rect,
    pub pane: Rect,
    pub corner: i32,
}

pub open spec fn painted(rc: Rect, dpi: int) -> Painted {
    let sidebar = scaled_by(dpi, SIDEBAR_W as int);
    let inset = scaled_by(dpi, PANE_INSET as int);
    Painted {
        hairline: Rect { left: sidebar as i32, top: 0, right: (sidebar + 1) as i32, bottom: rc.bottom },
        pane: Rect {
            left: (sidebar + inset) as i32,
            top: scaled_by(dpi, CAPTION_H as int) as i32,
            right: (rc.right - inset) as i32,
            bottom: (rc.bottom - inset) as i32,
        },
        corner: scaled_by(dpi, 20) as i32,
    }
}

pub fn paint_plan(rc: Rect, dpi: i32) -> (r: Painted)
    requires
        SIDEBAR_W * dpi <= i32::MAX,
        i32::MIN <= rc.right - scaled_by(dpi as int, PANE_INSET as int),
        i32::MIN <= rc.bottom - scaled_by(dpi as int, PANE_INSET as int),
    ensures
        r == painted(rc, dpi as int),
{
    let sidebar: i32 = scaled(dpi, SIDEBAR_W);
    let inset: i32 = scaled(dpi, PANE_INSET);
    Painted {
        hairline: Rect { left: sidebar, top: 0, right: sidebar + 1, bottom: rc.bottom },
        pane: Rect {
            left: sidebar + inset,
            top: scaled(dpi, CAPTION_H),
            right: rc.right - inset,
            bottom: rc.bottom - inset,
        },
        corner: scaled(dpi, 20),
    }
}

// ------------------------------------------------------------ the backdrop

/// The material behind a window.
#[derive(Clone, Copy, Debug, PartialEq, Eq, Structural)]
pub enum Backdrop {
    Off,
    Mica,
    MicaAlt,
    Acrylic,
}

/// What a window looks like.
#[derive(Clone, Copy, Debug, PartialEq, Eq, Structural)]
pub struct Look {
    pub backdrop: Backdrop,
    pub dark: bool,
}

/// What a key asks of the frame.
#[derive(Clone, Copy, Debug, PartialEq, Eq, Structural)]
pub enum FrameDo {
    Nothing,
    /// Apply the look again, repaint, and say what it is now.
    Apply,
    Quit,
}

/// The backdrop of a number key.
pub open spec fn numbered_backdrop(vk: u8) -> Option<Backdrop> {
    if vk == 0x31 {
        Some(Backdrop::Off)
    } else if vk == 0x32 {
        Some(Backdrop::Mica)
    } else if vk == 0x33 {
        Some(Backdrop::Acrylic)
    } else if vk == 0x34 {
        Some(Backdrop::MicaAlt)
    } else {
        None
    }
}

pub fn backdrop_for(vk: u8) -> (r: Option<Backdrop>)
    ensures
        r == numbered_backdrop(vk),
{
    match vk {
        0x31 => Some(Backdrop::Off),
        0x32 => Some(Backdrop::Mica),
        0x33 => Some(Backdrop::Acrylic),
        0x34 => Some(Backdrop::MicaAlt),
        _ => None,
    }
}

impl Look {
    pub fn new() -> (r: Look)
        ensures
            r == (Look { backdrop: Backdrop::Acrylic, dark: true }),
    {
        Look { backdrop: Backdrop::Acrylic, dark: true }
    }

    /// A key: 1 to 4 choose the backdrop, D switches dark and light, Q quits.
    pub fn key(&mut self, vk: u8) -> (r: FrameDo)
        ensures
            match numbered_backdrop(vk) {
                Some(b) => r == FrameDo::Apply && *final(self) == (Look { backdrop: b, ..*old(self) }),
                None => if vk == 0x44 {
                    r == FrameDo::Apply && *final(self) == (Look { dark: !old(self).dark, ..*old(self) })
                } else {
                    &&& r == (if vk == 0x51 { FrameDo::Quit } else { FrameDo::Nothing })
                    &&& *final(self) == *old(self)
                },
            },
    {
        match backdrop_for(vk) {
            Some(b) => {
                self.backdrop = b;
                return FrameDo::Apply;
            },
            None => {},
        }
        match vk {
            0x44 => {
                self.dark = !self.dark;
                FrameDo::Apply
            },
            0x51 => FrameDo::Quit,
            _ => FrameDo::Nothing,
        }
    }

    /// What is said of the look.
    pub fn state(&self) -> (r: String)
        ensures
            r@ == "  backdrop = "@ + backdrop_words(self.backdrop) + "   dark = "@ + (if self.dark {
                "true"@
            } else {
                "false"@
            }),
    {
        let name: &str = match self.backdrop {
            Backdrop::Off => "None (backdrop off)",
            Backdrop::Mica => "Mica \u{2014} samples the wallpaper, cheap",
            Backdrop::Acrylic => "Acrylic \u{2014} blurs live content behind, costly",
            Backdrop::MicaAlt => "Mica Alt",
        };
        let head: String = joined3("  backdrop = ", name, "   dark = ");
        joined(head.as_str(), if self.dark { "true" } else { "false" })
    }
}

pub open spec fn backdrop_words(b: Backdrop) -> Seq<char> {
    match b {
        Backdrop::Off => "None (backdrop off)"@,
        Backdrop::Mica => "Mica \u{2014} samples the wallpaper, cheap"@,
        Backdrop::Acrylic => "Acrylic \u{2014} blurs live content behind, costly"@,
        Backdrop::MicaAlt => "Mica Alt"@,
    }
}

/// What is said about the system's transparency setting: with it off the
/// backdrop is a flat colour, which is no fault of the window.
pub open spec fn transparency_words(on: Option<bool>) -> Seq<Seq<char>> {
    match on {
        Some(false) => seq![
            ""@,
            "  !!  'Transparency effects' is OFF in Windows."@,
            "      Settings > Personalization > Colors > Transparency effects"@,
            "      Mica/Acrylic render as a flat color in this state."@,
            "      Turn it on before concluding the backdrop is broken."@,
            ""@,
        ],
        Some(true) => seq!["  transparency effects: on"@],
        None => seq!["  transparency effects: unreadable (registry)"@],
    }
}

/// The texts of a list of literals as values.
pub open spec fn str_list(s: Seq<&'static str>) -> Seq<Seq<char>> {
    Seq::new(s.len(), |i: int| s[i]@)
}

pub fn transparency_notice(on: Option<bool>) -> (r: Vec<&'static str>)
    ensures
        str_list(r@) == transparency_words(on),
{
    let mut out: Vec<&'static str> = Vec::new();
    match on {
        Some(false) => {
            out.push("");
            out.push("  !!  'Transparency effects' is OFF in Windows.");
            out.push("      Settings > Personalization > Colors > Transparency effects");
            out.push("      Mica/Acrylic render as a flat color in this state.");
            out.push("      Turn it on before concluding the backdrop is broken.");
            out.push("");
        },
        Some(true) => {
            out.push("  transparency effects: on");
        },
        None => {
            out.push("  transparency effects: unreadable (registry)");
        },
    }
    assert(str_list(out@) =~= transparency_words(on));
    out
}

// ----------------------------------------------------------------- the text

/// The first font of a list that is installed, the last resort otherwise.
pub open spec fn first_installed(names: Seq<&'static str>, found: Seq<bool>, i: int) -> Seq<char>
    decreases names.len() - i,
{
    if i < 0 || i >= names.len() {
        "Consolas"@
    } else if i < found.len() && found[i] {
        names[i]@
    } else {
        first_installed(names, found, i + 1)
    }
}

pub fn pick_font(names: &Vec<&'static str>, found: &Vec<bool>) -> (r: &'static str)
    ensures
        r@ == first_installed(names@, found@, 0),
{
    let mut i: usize = 0;
    while i < names.len()
        invariant
            i <= names.len(),
            first_installed(names@, found@, 0) == first_installed(names@, found@, i as int),
        decreases names.len() - i,
    {
        if i < found.len() && found[i] {
            return names[i];
        }
        i = i + 1;
    }
    "Consolas"
}

/// How many lines the sample shows, and of how many it is made.
pub const SAMPLE_LINES: usize = 5000;

pub const TEMPLATE_LINES: usize = 35;

/// The lines the sample repeats, chosen to stress ligatures and glyphs.
pub open spec fn template_text(i: int) -> Seq<char> {
    if i == 0 {
        "// ligature test: these should join into single glyphs"@
    } else if i == 1 {
        "let a = x -> y => z !== w === v <= u >= t;"@
    } else if i == 2 {
        "let b = p |> q <| r <-> s <- m -> n;"@
    } else if i == 3 {
        "if (a != b && c || d) { /* yorum */ } // son"@
    } else if i == 4 {
        "let path = a::b::c::<T>::new(...);"@
    } else if i == 5 {
        "let opt = maybe?.value ?? fallback;"@
    } else if i == 6 {
        "let range = 0..=10; let spread = [...arr];"@
    } else if i == 7 {
        "let arrow = |x| x * 2; let fat = () => {};"@
    } else if i == 8 {
        ""@
    } else if i == 9 {
        "// Nerd Font / powerline \u{2014} on the cell grid, or overflowing?"@
    } else if i == 10 {
        "  main       kubide     3   12"@
    } else if i == 11 {
        "        \u{f02a2}  \u{f0169}  \u{f018d}  "@
    } else if i == 12 {
        "  src/main.rs    Cargo.toml    README.md"@
    } else if i == 13 {
        ""@
    } else if i == 14 {
        "// CJK + emoji + combining marks (font fallback test)"@
    } else if i == 15 {
        "let s = \"T\u{fc}rk\u{e7}e \u{11f}\u{fc}\u{15f}i\u{f6}\u{e7} \u{11e}\u{dc}\u{15e}\u{130}\u{d6}\u{c7} \u{2014} apostrophe' test\";"@
    } else if i == 16 {
        "let cjk = \"\u{65e5}\u{672c}\u{8a9e} \u{4e2d}\u{6587} \u{d55c}\u{ad6d}\u{c5b4}\"; let emo = \"\u{1f680} \u{2705} \u{1f525}\";"@
    } else if i == 17 {
        "let combining = \"e\u{0301} a\u{0308} o\u{0303}\";"@
    } else if i == 18 {
        ""@
    } else if i == 19 {
        "fn process<T: Iterator<Item = u32>>(iter: T) -> Vec<u32> {"@
    } else if i == 20 {
        "    iter.filter(|&x| x % 2 == 0)"@
    } else if i == 21 {
        "        .map(|x| x * x)"@
    } else if i == 22 {
        "        .take_while(|&x| x <= 1_000)"@
    } else if i == 23 {
        "        .collect::<Vec<_>>()"@
    } else if i == 24 {
        "}"@
    } else if i == 25 {
        ""@
    } else if i == 26 {
        "impl Renderer for GpuBackend {"@
    } else if i == 27 {
        "    fn draw(&mut self, cmds: &[Command]) -> Result<(), Error> {"@
    } else if i == 28 {
        "        for cmd in cmds.iter().filter(|c| c.visible) {"@
    } else if i == 29 {
        "            self.queue.push(cmd.clone());"@
    } else if i == 30 {
        "        }"@
    } else if i == 31 {
        "        Ok(())"@
    } else if i == 32 {
        "    }"@
    } else if i == 33 {
        "}"@
    } else {
        ""@
    }
}

fn template(i: usize) -> (r: &'static str)
    ensures
        r@ == template_text(i as int),
{
    if i == 0 {
        "// ligature test: these should join into single glyphs"
    } else if i == 1 {
        "let a = x -> y => z !== w === v <= u >= t;"
    } else if i == 2 {
        "let b = p |> q <| r <-> s <- m -> n;"
    } else if i == 3 {
        "if (a != b && c || d) { /* yorum */ } // son"
    } else if i == 4 {
        "let path = a::b::c::<T>::new(...);"
    } else if i == 5 {
        "let opt = maybe?.value ?? fallback;"
    } else if i == 6 {
        "let range = 0..=10; let spread = [...arr];"
    } else if i == 7 {
        "let arrow = |x| x * 2; let fat = () => {};"
    } else if i == 8 {
        ""
    } else if i == 9 {
        "// Nerd Font / powerline \u{2014} on the cell grid, or overflowing?"
    } else if i == 10 {
        "  main       kubide     3   12"
    } else if i == 11 {
        "        \u{f02a2}  \u{f0169}  \u{f018d}  "
    } else if i == 12 {
        "  src/main.rs    Cargo.toml    README.md"
    } else if i == 13 {
        ""
    } else if i == 14 {
        "// CJK + emoji + combining marks (font fallback test)"
    } else if i == 15 {
        "let s = \"T\u{fc}rk\u{e7}e \u{11f}\u{fc}\u{15f}i\u{f6}\u{e7} \u{11e}\u{dc}\u{15e}\u{130}\u{d6}\u{c7} \u{2014} apostrophe' test\";"
    } else if i == 16 {
        "let cjk = \"\u{65e5}\u{672c}\u{8a9e} \u{4e2d}\u{6587} \u{d55c}\u{ad6d}\u{c5b4}\"; let emo = \"\u{1f680} \u{2705} \u{1f525}\";"
    } else if i == 17 {
        "let combining = \"e\u{0301} a\u{0308} o\u{0303}\";"
    } else if i == 18 {
        ""
    } else if i == 19 {
        "fn process<T: Iterator<Item = u32>>(iter: T) -> Vec<u32> {"
    } else if i == 20 {
        "    iter.filter(|&x| x % 2 == 0)"
    } else if i == 21 {
        "        .map(|x| x * x)"
    } else if i == 22 {
        "        .take_while(|&x| x <= 1_000)"
    } else if i == 23 {
        "        .collect::<Vec<_>>()"
    } else if i == 24 {
        "}"
    } else if i == 25 {
        ""
    } else if i == 26 {
        "impl Renderer for GpuBackend {"
    } else if i == 27 {
        "    fn draw(&mut self, cmds: &[Command]) -> Result<(), Error> {"
    } else if i == 28 {
        "        for cmd in cmds.iter().filter(|c| c.visible) {"
    } else if i == 29 {
        "            self.queue.push(cmd.clone());"
    } else if i == 30 {
        "        }"
    } else if i == 31 {
        "        Ok(())"
    } else if i == 32 {
        "    }"
    } else if i == 33 {
        "}"
    } else {
        ""
    }
}

/// One line of the sample. Numbering makes every line unique, so a cache of
/// shaped lines is actually exercised.
pub open spec fn sample_line(i: int) -> Seq<char> {
    text::padded(text::decimal((i + 1) as nat), ' ', 5) + " \u{2502} "@ + template_text(
        i % TEMPLATE_LINES as int,
    )
}

pub fn build_lines() -> (r: Vec<String>)
    ensures
        r@.len() == SAMPLE_LINES,
        forall|i: int| 0 <= i < r@.len() ==> (#[trigger] r@[i])@ == sample_line(i),
{
    let mut out: Vec<String> = Vec::new();
    let mut i: usize = 0;
    while i < SAMPLE_LINES
        invariant
            i <= SAMPLE_LINES,
            out.len() == i,
            forall|k: int| 0 <= k < i ==> (#[trigger] out@[k])@ == sample_line(k),
        decreases SAMPLE_LINES - i,
    {
        let n: String = decimal_text(i as u64 + 1);
        let number: String = pad(n.as_str(), ' ', 5);
        out.push(joined3(number.as_str(), " \u{2502} ", template(i % TEMPLATE_LINES)));
        i = i + 1;
    }
    out
}

/// How the sample is shown.
#[derive(Clone, Copy, Debug, PartialEq, Eq, Structural)]
pub struct Sample {
    pub size: u32,
    pub top: usize,
    pub ligatures: bool,
    pub split: bool,
    /// A light background: the difference between the two renderings shows up
    /// there.
    pub light: bool,
}

/// What a key asks of the sample.
#[derive(Clone, Copy, Debug, PartialEq, Eq, Structural)]
pub enum SampleDo {
    Nothing,
    Repaint,
    /// Shape the lines again, then repaint.
    Rebuild,
    Quit,
}

pub open spec fn sample_pressed(s: Sample, vk: u8) -> (Sample, SampleDo) {
    if vk == 0x4C {
        (Sample { ligatures: !s.ligatures, ..s }, SampleDo::Rebuild)
    } else if vk == 0x53 {
        (Sample { split: !s.split, ..s }, SampleDo::Repaint)
    } else if vk == 0x42 {
        (Sample { light: !s.light, ..s }, SampleDo::Repaint)
    } else if vk == 0xBB || vk == 0x6B {
        (Sample { size: (if s.size >= 48 { 48 } else { s.size + 1 }) as u32, ..s }, SampleDo::Rebuild)
    } else if vk == 0xBD || vk == 0x6D {
        (Sample { size: (if s.size <= 6 { 6 } else { s.size - 1 }) as u32, ..s }, SampleDo::Rebuild)
    } else if vk == 0x51 {
        (s, SampleDo::Quit)
    } else {
        (s, SampleDo::Nothing)
    }
}

impl Sample {
    pub fn new() -> (r: Sample)
        ensures
            r == (Sample { size: 14, top: 0, ligatures: true, split: true, light: false }),
    {
        Sample { size: 14, top: 0, ligatures: true, split: true, light: false }
    }

    pub fn key(&mut self, vk: u8) -> (r: SampleDo)
        ensures
            (*final(self), r) == sample_pressed(*old(self), vk),
    {
        match vk {
            0x4C => {
                self.ligatures = !self.ligatures;
                SampleDo::Rebuild
            },
            0x53 => {
                self.split = !self.split;
                SampleDo::Repaint
            },
            0x42 => {
                self.light = !self.light;
                SampleDo::Repaint
            },
            0xBB | 0x6B => {
                self.size = if self.size >= 48 { 48 } else { self.size + 1 };
                SampleDo::Rebuild
            },
            0xBD | 0x6D => {
                self.size = if self.size <= 6 { 6 } else { self.size - 1 };
                SampleDo::Rebuild
            },
            0x51 => SampleDo::Quit,
            _ => SampleDo::Nothing,
        }
    }

    /// The wheel, three lines a notch, from the first line to the last.
    pub fn wheel(&mut self, up: bool, lines: usize)
        requires
            old(self).top <= usize::MAX - 3,
        ensures
            *final(self) == (Sample {
                top: (if up {
                    if old(self).top <= 3 { 0 } else { old(self).top - 3 }
                } else {
                    let last = if lines == 0 { 0 } else { lines - 1 };
                    if old(self).top + 3 <= last { old(self).top + 3 } else { last }
                }) as usize,
                ..*old(self)
            }),
    {
        if up {
            self.top = if self.top <= 3 { 0 } else { self.top - 3 };
        } else {
            let last: usize = if lines == 0 { 0 } else { lines - 1 };
            self.top = if self.top + 3 <= last { self.top + 3 } else { last };
        }
    }

    /// Which lines are shown: from the top, as many as fit.
    pub fn shown(&self, visible: usize, lines: usize) -> (r: (usize, usize))
        requires
            self.top + visible <= usize::MAX,
        ensures
            r.0 == self.top,
            r.1 == (if self.top + visible <= lines { self.top + visible } else { lines as int }),
    {
        let end: usize = self.top + visible;
        (self.top, if end <= lines { end } else { lines })
    }

    /// The panels, left to right, each labelled with the rendering it shows.
    pub fn labels(&self) -> (r: Vec<&'static str>)
        ensures
            str_list(r@) == (if self.split {
                seq![
                    "ClearType (subpixel) \u{2014} what an opaque surface would use"@,
                    "Grayscale \u{2014} what a translucent surface is stuck with"@,
                ]
            } else {
                seq!["ClearType (subpixel) \u{2014} tek panel"@]
            }),
    {
        let mut out: Vec<&'static str> = Vec::new();
        if self.split {
            out.push("ClearType (subpixel) \u{2014} what an opaque surface would use");
            out.push("Grayscale \u{2014} what a translucent surface is stuck with");
            assert(str_list(out@) =~= seq![
                "ClearType (subpixel) \u{2014} what an opaque surface would use"@,
                "Grayscale \u{2014} what a translucent surface is stuck with"@,
            ]);
        } else {
            out.push("ClearType (subpixel) \u{2014} tek panel");
            assert(str_list(out@) =~= seq!["ClearType (subpixel) \u{2014} tek panel"@]);
        }
        out
    }

    /// The window's title: what is on screen and how long it took to draw.
    pub fn title(&self, font: &str, frame: &str) -> (r: String)
        ensures
            r@ == "kubide spike 2 \u{2014} "@ + font@ + " "@ + text::decimal(self.size as nat)
                + "px \u{b7} ligatures "@ + (if self.ligatures { "ON"@ } else { "OFF"@ })
                + " \u{b7} background "@ + (if self.light { "LIGHT"@ } else { "DARK"@ }) + " \u{b7} draw "@
                + frame@ + " ms"@,
    {
        let size: String = decimal_text(self.size as u64);
        let a: String = joined3("kubide spike 2 \u{2014} ", font, " ");
        let b: String = joined3(a.as_str(), size.as_str(), "px \u{b7} ligatures ");
        let c: String = joined3(
            b.as_str(),
            if self.ligatures { "ON" } else { "OFF" },
            " \u{b7} background ",
        );
        let d: String = joined3(c.as_str(), if self.light { "LIGHT" } else { "DARK" }, " \u{b7} draw ");
        joined3(d.as_str(), frame, " ms")
    }
}

// ----------------------------------------------------------------- the tint

/// The tint of a panel, in hundredths, over a backdrop.
#[derive(Clone, Copy, Debug, PartialEq, Eq, Structural)]
pub struct Tint {
    pub hundredths: u32,
    pub backdrop: Backdrop,
}

/// What a key asks of the tint.
#[derive(Clone, Copy, Debug, PartialEq, Eq, Structural)]
pub enum TintDo {
    Nothing,
    Redraw,
    /// Apply the backdrop, then redraw.
    Apply,
    Quit,
}

pub open spec fn tint_pressed(t: Tint, vk: u8) -> (Tint, TintDo) {
    if vk == 0xDB {
        (
            Tint { hundredths: (if t.hundredths <= 5 { 0 } else { t.hundredths - 5 }) as u32, ..t },
            TintDo::Redraw,
        )
    } else if vk == 0xDD {
        (
            Tint { hundredths: (if t.hundredths >= 95 { 100 } else { t.hundredths + 5 }) as u32, ..t },
            TintDo::Redraw,
        )
    } else {
        match numbered_backdrop(vk) {
            Some(b) => (Tint { backdrop: b, ..t }, TintDo::Apply),
            None => (t, if vk == 0x51 { TintDo::Quit } else { TintDo::Nothing }),
        }
    }
}

impl Tint {
    pub fn new() -> (r: Tint)
        ensures
            r == (Tint { hundredths: 55, backdrop: Backdrop::Acrylic }),
    {
        Tint { hundredths: 55, backdrop: Backdrop::Acrylic }
    }

    /// A key: the brackets thin and thicken the tint, a number chooses the
    /// backdrop.
    pub fn key(&mut self, vk: u8) -> (r: TintDo)
        ensures
            (*final(self), r) == tint_pressed(*old(self), vk),
    {
        match vk {
            0xDB => {
                self.hundredths = if self.hundredths <= 5 { 0 } else { self.hundredths - 5 };
                return TintDo::Redraw;
            },
            0xDD => {
                self.hundredths = if self.hundredths >= 95 { 100 } else { self.hundredths + 5 };
                return TintDo::Redraw;
            },
            _ => {},
        }
        match backdrop_for(vk) {
            Some(b) => {
                self.backdrop = b;
                TintDo::Apply
            },
            None => if vk == 0x51 { TintDo::Quit } else { TintDo::Nothing },
        }
    }

    /// The window's title.
    pub fn title(&self, frame: &str) -> (r: String)
        ensures
            r@ == "kubide spike 3 \u{2014} "@ + (match self.backdrop {
                Backdrop::Mica => "Mica"@,
                Backdrop::Acrylic => "Acrylic"@,
                Backdrop::MicaAlt => "MicaAlt"@,
                Backdrop::Off => "None"@,
            }) + " \u{b7} tint "@ + text::decimal((self.hundredths / 100) as nat) + "."@ + text::padded(
                text::decimal((self.hundredths % 100) as nat),
                '0',
                2,
            ) + " \u{b7} frame "@ + frame@ + " ms   ([ ] tint \u{b7} 1-4 backdrop)"@,
    {
        let name: &str = match self.backdrop {
            Backdrop::Mica => "Mica",
            Backdrop::Acrylic => "Acrylic",
            Backdrop::MicaAlt => "MicaAlt",
            Backdrop::Off => "None",
        };
        let whole: String = decimal_text((self.hundredths / 100) as u64);
        let part: String = decimal_text((self.hundredths % 100) as u64);
        let part: String = pad(part.as_str(), '0', 2);
        let a: String = joined3("kubide spike 3 \u{2014} ", name, " \u{b7} tint ");
        let b: String = joined3(a.as_str(), whole.as_str(), ".");
        let c: String = joined3(b.as_str(), part.as_str(), " \u{b7} frame ");
        joined3(c.as_str(), frame, " ms   ([ ] tint \u{b7} 1-4 backdrop)")
    }
}

/// The code shown over the tint.
pub const CODE_LINES: usize = 26;

pub open spec fn code_text(i: int) -> Seq<char> {
    if i == 0 {
        "impl Renderer for GpuBackend {"@
    } else if i == 1 {
        "    fn draw(&mut self, cmds: &[Command]) -> Result<()> {"@
    } else if i == 2 {
        "        for cmd in cmds.iter().filter(|c| c.visible) {"@
    } else if i == 3 {
        "            let bounds = cmd.rect.intersect(self.clip)?;"@
    } else if i == 4 {
        "            if bounds.is_empty() { continue; }"@
    } else if i == 5 {
        "            self.queue.push(DrawCall {"@
    } else if i == 6 {
        "                atlas: self.atlas_for(cmd.glyph)?,"@
    } else if i == 7 {
        "                uv:    cmd.uv,  // premultiplied!"@
    } else if i == 8 {
        "                color: cmd.color * cmd.alpha,"@
    } else if i == 9 {
        "            });"@
    } else if i == 10 {
        "        }"@
    } else if i == 11 {
        "        self.flush()"@
    } else if i == 12 {
        "    }"@
    } else if i == 13 {
        "}"@
    } else if i == 14 {
        ""@
    } else if i == 15 {
        "// ligature + nerd font + unicode"@
    } else if i == 16 {
        "let a = x -> y => z != w == v <= u >= t;"@
    } else if i == 17 {
        "  main    kubide   3  12   src/main.rs"@
    } else if i == 18 {
        "let s = \"T\u{fc}rk\u{e7}e \u{11f}\u{fc}\u{15f}i\u{f6}\u{e7} \u{2014} \u{65e5}\u{672c}\u{8a9e} \u{4e2d}\u{6587} \u{1f680}\";"@
    } else if i == 19 {
        ""@
    } else if i == 20 {
        "fn process<T: Iterator<Item = u32>>(it: T) -> Vec<u32> {"@
    } else if i == 21 {
        "    it.filter(|&x| x % 2 == 0)"@
    } else if i == 22 {
        "      .map(|x| x * x)"@
    } else if i == 23 {
        "      .take_while(|&x| x <= 1_000)"@
    } else if i == 24 {
        "      .collect::<Vec<_>>()"@
    } else {
        "}"@
    }
}

fn code(i: usize) -> (r: &'static str)
    ensures
        r@ == code_text(i as int),
{
    if i == 0 {
        "impl Renderer for GpuBackend {"
    } else if i == 1 {
        "    fn draw(&mut self, cmds: &[Command]) -> Result<()> {"
    } else if i == 2 {
        "        for cmd in cmds.iter().filter(|c| c.visible) {"
    } else if i == 3 {
        "            let bounds = cmd.rect.intersect(self.clip)?;"
    } else if i == 4 {
        "            if bounds.is_empty() { continue; }"
    } else if i == 5 {
        "            self.queue.push(DrawCall {"
    } else if i == 6 {
        "                atlas: self.atlas_for(cmd.glyph)?,"
    } else if i == 7 {
        "                uv:    cmd.uv,  // premultiplied!"
    } else if i == 8 {
        "                color: cmd.color * cmd.alpha,"
    } else if i == 9 {
        "            });"
    } else if i == 10 {
        "        }"
    } else if i == 11 {
        "        self.flush()"
    } else if i == 12 {
        "    }"
    } else if i == 13 {
        "}"
    } else if i == 14 {
        ""
    } else if i == 15 {
        "// ligature + nerd font + unicode"
    } else if i == 16 {
        "let a = x -> y => z != w == v <= u >= t;"
    } else if i == 17 {
        "  main    kubide   3  12   src/main.rs"
    } else if i == 18 {
        "let s = \"T\u{fc}rk\u{e7}e \u{11f}\u{fc}\u{15f}i\u{f6}\u{e7} \u{2014} \u{65e5}\u{672c}\u{8a9e} \u{4e2d}\u{6587} \u{1f680}\";"
    } else if i == 19 {
        ""
    } else if i == 20 {
        "fn process<T: Iterator<Item = u32>>(it: T) -> Vec<u32> {"
    } else if i == 21 {
        "    it.filter(|&x| x % 2 == 0)"
    } else if i == 22 {
        "      .map(|x| x * x)"
    } else if i == 23 {
        "      .take_while(|&x| x <= 1_000)"
    } else if i == 24 {
        "      .collect::<Vec<_>>()"
    } else {
        "}"
    }
}

/// The lines over the tint: the code three times over.
pub fn code_lines() -> (r: Vec<&'static str>)
    ensures
        r@.len() == 3 * CODE_LINES,
        forall|i: int| 0 <= i < r@.len() ==> (#[trigger] r@[i])@ == code_text(i % CODE_LINES as int),
{
    let mut out: Vec<&'static str> = Vec::new();
    let mut i: usize = 0;
    while i < 3 * CODE_LINES
        invariant
            i <= 3 * CODE_LINES,
            out.len() == i,
            forall|k: int| 0 <= k < i ==> (#[trigger] out@[k])@ == code_text(k % CODE_LINES as int),
        decreases 3 * CODE_LINES - i,
    {
        out.push(code(i % CODE_LINES));
        i = i + 1;
    }
    out
}

// -------------------------------------------------------------------- laws

/// A maximized window is not resized by its edges.
pub proof fn a_maximized_window_has_no_grips(x: int, y: int, rc: Rect, border: int, caption: int)
    ensures
        grip_at(x, y, rc, border, caption, true) == Grip::Caption || grip_at(
            x,
            y,
            rc,
            border,
            caption,
            true,
        ) == Grip::Client,
{
}

/// A corner is wherever two edges meet, so that a window is never resized by
/// one edge where a hand aims at two.
pub proof fn a_corner_wins_over_its_edges(x: int, y: int, rc: Rect, border: int, caption: int)
    requires
        y < rc.top + border,
        x < rc.left + border,
    ensures
        grip_at(x, y, rc, border, caption, false) == Grip::TopLeft,
{
}

/// The tint stays between nothing and all, whatever is pressed.
pub proof fn a_tint_stays_a_tint(t: Tint, vk: u8)
    requires
        t.hundredths <= 100,
    ensures
        tint_pressed(t, vk).0.hundredths <= 100,
{
}

/// The text stays readable: no smaller than six, no larger than forty-eight.
pub proof fn the_sample_stays_readable(s: Sample, vk: u8)
    requires
        6 <= s.size <= 48,
    ensures
        6 <= sample_pressed(s, vk).0.size <= 48,
{
}

/// The edges of a window that is not maximized are its grips, each on its
/// own side, as wide as the border; inside of them the bar on top moves the
/// window and the rest is the program's.
pub proof fn each_edge_grips_its_side(x: int, y: int, rc: Rect, border: int, caption: int)
    requires
        0 <= border,
        rc.left + border <= rc.right - border,
        rc.top + border <= rc.bottom - border,
    ensures
        ({
            let at = |x: int, y: int| grip_at(x, y, rc, border, caption, false);
            let left = x < rc.left + border;
            let right = x >= rc.right - border;
            let top = y < rc.top + border;
            let bottom = y >= rc.bottom - border;
            &&& at(x, y) == Grip::TopLeft <==> top && left
            &&& at(x, y) == Grip::TopRight <==> top && right
            &&& at(x, y) == Grip::BottomLeft <==> bottom && left
            &&& at(x, y) == Grip::BottomRight <==> bottom && right
            &&& at(x, y) == Grip::Top <==> top && !left && !right
            &&& at(x, y) == Grip::Bottom <==> bottom && !left && !right
            &&& at(x, y) == Grip::Left <==> left && !top && !bottom
            &&& at(x, y) == Grip::Right <==> right && !top && !bottom
            &&& at(x, y) == Grip::Caption <==> !left && !right && !top && !bottom && y < rc.top + caption
            &&& at(x, y) == Grip::Client <==> !left && !right && !top && !bottom && y >= rc.top + caption
        }),
{
}

/// Sizes grow with the screen: as they are at 96 dots to the inch, doubled
/// at twice as many.
pub proof fn sizes_grow_with_the_screen(v: int)
    requires
        v >= 0,
    ensures
        scaled_by(96, v) == v,
        scaled_by(192, v) == 2 * v,
        scaled_by(48, 2 * v) == v,
        scaled_by(0, v) == v,
{
}

/// The number keys name a backdrop each, and no two the same.
pub proof fn each_number_names_a_backdrop(a: u8, b: u8)
    ensures
        numbered_backdrop('1' as u8) == Some(Backdrop::Off),
        numbered_backdrop('2' as u8) == Some(Backdrop::Mica),
        numbered_backdrop('3' as u8) == Some(Backdrop::Acrylic),
        numbered_backdrop('4' as u8) == Some(Backdrop::MicaAlt),
        numbered_backdrop(a) is Some && numbered_backdrop(a) == numbered_backdrop(b) ==> a == b,
{
}

/// The keys of the sample: each changes its one thing, and the keys that
/// switch something switch it back.
pub proof fn keys_of_the_sample(s: Sample)
    ensures
        sample_pressed(s, 'L' as u8) == (Sample { ligatures: !s.ligatures, ..s }, SampleDo::Rebuild),
        sample_pressed(s, 'S' as u8) == (Sample { split: !s.split, ..s }, SampleDo::Repaint),
        sample_pressed(s, 'B' as u8) == (Sample { light: !s.light, ..s }, SampleDo::Repaint),
        sample_pressed(s, 'Q' as u8) == (s, SampleDo::Quit),
        6 <= s.size < 48 ==> sample_pressed(s, 0xBB).0 == (Sample { size: (s.size + 1) as u32, ..s }),
        6 < s.size <= 48 ==> sample_pressed(s, 0xBD).0 == (Sample { size: (s.size - 1) as u32, ..s }),
        6 <= s.size < 48 ==> sample_pressed(sample_pressed(s, 0xBB).0, 0xBD).0 == s,
        sample_pressed(s, 0x6B) == sample_pressed(s, 0xBB),
        sample_pressed(s, 0x6D) == sample_pressed(s, 0xBD),
{
}

/// The tint goes five hundredths up and down, between none and all.
pub proof fn the_tint_goes_up_and_down(t: Tint)
    requires
        t.hundredths <= 100,
    ensures
        t.hundredths >= 5 ==> tint_pressed(t, 0xDB).0.hundredths == t.hundredths - 5,
        t.hundredths <= 95 ==> tint_pressed(t, 0xDD).0.hundredths == t.hundredths + 5,
        t.hundredths <= 95 ==> tint_pressed(tint_pressed(t, 0xDD).0, 0xDB).0 == t,
        tint_pressed(t, 0xDB).0.backdrop == t.backdrop && tint_pressed(t, 0xDD).0.backdrop == t.backdrop,
        tint_pressed(t, 'Q' as u8) == (t, TintDo::Quit),
        tint_pressed(t, '2' as u8) == (Tint { backdrop: Backdrop::Mica, ..t }, TintDo::Apply),
{
}

/// The font is the first of the list that is installed.
pub proof fn the_first_font_that_is_installed(names: Seq<&'static str>, found: Seq<bool>, i: int, k: int)
    requires
        0 <= i <= k <= names.len(),
        names.len() == found.len(),
        forall|j: int| i <= j < k ==> !#[trigger] found[j],
        k < names.len() ==> found[k],
    ensures
        k < names.len() ==> first_installed(names, found, i) == names[k]@,
        k == names.len() ==> first_installed(names, found, i) == "Consolas"@,
    decreases k - i,
{
    if i < k {
        assert(!found[i]);
        the_first_font_that_is_installed(names, found, i + 1, k);
    }
}

/// The lines of the sample are numbered from one, and the text comes round
/// again behind its last line.
pub proof fn the_sample_repeats(i: int)
    requires
        0 <= i,
    ensures
        sample_line(i) == text::padded(text::decimal((i + 1) as nat), ' ', 5) + " \u{2502} "@ + template_text(i % 35),
        template_text((i + 35) % 35) == template_text(i % 35),
{
}

/// A coordinate comes in sixteen bits, and the upper half of them are
/// negative, as on a screen to the left of the first.
pub proof fn coordinates_may_be_negative(n: int)
    ensures
        0 <= n < 32768 ==> signed_half(n) == n,
        32768 <= n < 65536 ==> signed_half(n) == n - 65536,
        signed_half(n + 65536) == signed_half(n),
{
}

/// The words for a backdrop name it.
pub proof fn a_backdrop_goes_by_its_name()
    ensures
        backdrop_words(Backdrop::Off) == "None (backdrop off)"@,
        backdrop_words(Backdrop::Mica) == "Mica \u{2014} samples the wallpaper, cheap"@,
        backdrop_words(Backdrop::Acrylic) == "Acrylic \u{2014} blurs live content behind, costly"@,
        backdrop_words(Backdrop::MicaAlt) == "Mica Alt"@,
        transparency_words(Some(true)) == seq!["  transparency effects: on"@],
        transparency_words(None) == seq!["  transparency effects: unreadable (registry)"@],
        transparency_words(Some(false)).len() == 6,
{
}

} // verus!
