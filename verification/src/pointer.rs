//! The mouse pointer: which shape it wears over what, and in which colour.
use vstd::prelude::*;
use vstd::string::*;
use crate::session::Axis;
use crate::text::chars_of;

verus! {

/// A drawn pointer.
#[derive(Clone, Copy, Debug, PartialEq, Eq, Structural)]
pub enum Kind {
    Arrow,
    Dart,
    Triangle,
    Temple,
    Hand,
    IBeam,
    Bar,
    SizeWE,
    SizeNS,
}

/// The system's own pointers.
#[derive(Clone, Copy, Debug, PartialEq, Eq, Structural)]
pub enum Stock {
    Arrow,
    Text,
    Hand,
    SizeWE,
    SizeNS,
}

/// The drawn pointer over what is not text.
#[derive(Clone, Copy, Debug, PartialEq, Eq, Structural)]
pub enum PointerStyle {
    Arrow,
    Dart,
    Triangle,
    Temple,
}

/// The drawn pointer over text.
#[derive(Clone, Copy, Debug, PartialEq, Eq, Structural)]
pub enum TextPointerStyle {
    Ibeam,
    Bar,
}

/// How the pointer is configured.
#[derive(Debug)]
pub struct Style {
    pub custom: bool,
    pub size: u32,
    pub pointer: PointerStyle,
    pub over_text: TextPointerStyle,
    /// The shared colour, and a role's own where one is set.
    pub color: String,
    pub pointer_color: String,
    pub text_color: String,
    pub pointer_file: String,
    pub text_file: String,
    pub hand_file: String,
    pub resize_we_file: String,
    pub resize_ns_file: String,
}

/// A drawn pointer with its size and colour.
#[derive(Clone, Copy, Debug, PartialEq, Eq, Structural)]
pub struct Themed {
    pub kind: Kind,
    pub size: u16,
    pub rgb: u32,
}

/// The pointer to show.
#[derive(Debug, PartialEq, Eq)]
pub enum Shape {
    Stock(Stock),
    Themed(Themed),
    /// A pointer from a file, and what is drawn when it cannot be read.
    File { path: String, fallback: Themed },
}

/// The pointer to show, as a value.
pub enum ShapeState {
    Stock(Stock),
    Themed(Themed),
    File { path: Seq<char>, fallback: Themed },
}

impl View for Shape {
    type V = ShapeState;

    open spec fn view(&self) -> ShapeState {
        match self {
            Shape::Stock(s) => ShapeState::Stock(*s),
            Shape::Themed(t) => ShapeState::Themed(*t),
            Shape::File { path, fallback } => ShapeState::File { path: path@, fallback: *fallback },
        }
    }
}

/// The value of a hexadecimal digit.
pub open spec fn hex_value(c: char) -> Option<nat> {
    if '0' <= c <= '9' {
        Some((c as int - '0' as int) as nat)
    } else if 'a' <= c <= 'f' {
        Some((c as int - 'a' as int + 10) as nat)
    } else if 'A' <= c <= 'F' {
        Some((c as int - 'A' as int + 10) as nat)
    } else {
        None
    }
}

/// The value of hexadecimal digits, if that is all there is.
pub open spec fn hex_digits(s: Seq<char>) -> Option<nat>
    decreases s.len(),
{
    if s.len() == 0 {
        Some(0)
    } else {
        match (hex_digits(s.drop_last()), hex_value(s.last())) {
            (Some(n), Some(d)) => Some(16 * n + d),
            _ => None,
        }
    }
}

/// A colour as it is written: `#` and six places, hexadecimal. A plus sign
/// may stand in the first of them.
pub open spec fn written_color(s: Seq<char>) -> Option<nat> {
    if s.len() == 7 && s[0] == '#' {
        if s[1] == '+' { hex_digits(s.skip(2)) } else { hex_digits(s.skip(1)) }
    } else {
        None
    }
}

fn digit(c: char) -> (r: Option<u32>)
    ensures
        match r {
            Some(d) => hex_value(c) == Some(d as nat) && d < 16,
            None => hex_value(c) is None,
        },
{
    if '0' <= c && c <= '9' {
        Some(c as u32 - 48)
    } else if 'a' <= c && c <= 'f' {
        Some(c as u32 - 97 + 10)
    } else if 'A' <= c && c <= 'F' {
        Some(c as u32 - 65 + 10)
    } else {
        None
    }
}

proof fn lemma_hex_stays_none(s: Seq<char>, n: int)
    requires
        0 <= n <= s.len(),
        hex_digits(s.take(n)) is None,
    ensures
        hex_digits(s) is None,
    decreases s.len() - n,
{
    if n < s.len() {
        assert(s.take(n + 1).drop_last() =~= s.take(n));
        lemma_hex_stays_none(s, n + 1);
    } else {
        assert(s.take(n) =~= s);
    }
}

fn color_of(s: &str) -> (r: Option<u32>)
    ensures
        match r {
            Some(n) => written_color(s@) == Some(n as nat),
            None => written_color(s@) is None,
        },
{
    let v: Vec<char> = chars_of(s);
    if v.len() != 7 || v[0] != '#' {
        return None;
    }
    let from: usize = if v[1] == '+' { 2 } else { 1 };
    let ghost body = s@.skip(from as int);
    let mut n: u64 = 0;
    let mut i: usize = from;
    assert(body.take(0) =~= Seq::<char>::empty());
    while i < 7
        invariant
            1 <= from <= i <= 7,
            from <= 2,
            v@ == s@,
            v@.len() == 7,
            s@[0] == '#',
            from == (if s@[1] == '+' { 2int } else { 1 }),
            body == s@.skip(from as int),
            hex_digits(body.take(i - from)) == Some(n as nat),
            i - from == 0 ==> n < 1,
            i - from == 1 ==> n < 16,
            i - from == 2 ==> n < 256,
            i - from == 3 ==> n < 4096,
            i - from == 4 ==> n < 65536,
            i - from == 5 ==> n < 1048576,
            i - from == 6 ==> n < 16777216,
        decreases 7 - i,
    {
        proof {
            assert(body.take(i - from + 1).drop_last() =~= body.take(i - from));
            assert(body.take(i - from + 1).last() == v@[i as int]);
        }
        match digit(v[i]) {
            Some(d) => {
                n = 16 * n + d as u64;
            },
            None => {
                proof {
                    lemma_hex_stays_none(body, i - from + 1);
                }
                return None;
            },
        }
        i = i + 1;
    }
    assert(body.take(7 - from) =~= body);
    Some(n as u32)
}

/// Which colour a pointer asks for: its role's own when one is set, the
/// shared one otherwise. The hand is the pointer's sibling.
pub open spec fn asked_color(style: Style, kind: Kind) -> Seq<char> {
    let own = match kind {
        Kind::Arrow | Kind::Dart | Kind::Triangle | Kind::Temple | Kind::Hand => style.pointer_color@,
        Kind::IBeam | Kind::Bar => style.text_color@,
        Kind::SizeWE | Kind::SizeNS => Seq::empty(),
    };
    if own.len() == 0 { style.color@ } else { own }
}

/// The configured pointer. A file wins over the drawn shape, with the drawing
/// as its fallback; the system's own is used when custom is off entirely. A
/// colour that cannot be read harmlessly follows the theme's accent.
pub open spec fn dressed(style: Style, kind: Kind, file: Seq<char>, stock: Stock, accent: u32) -> ShapeState {
    if !style.custom {
        ShapeState::Stock(stock)
    } else {
        let t = Themed {
            kind,
            size: (if style.size <= 128 { style.size } else { 128 }) as u16,
            rgb: match written_color(asked_color(style, kind)) {
                Some(n) => n as u32,
                None => accent,
            },
        };
        if file.len() == 0 { ShapeState::Themed(t) } else { ShapeState::File { path: file, fallback: t } }
    }
}

impl Style {
    pub fn themed_or_file(&self, kind: Kind, file: &str, stock: Stock, accent: u32) -> (r: Shape)
        ensures
            r@ == dressed(*self, kind, file@, stock, accent),
    {
        if !self.custom {
            return Shape::Stock(stock);
        }
        let own: &str = match kind {
            Kind::Arrow | Kind::Dart | Kind::Triangle | Kind::Temple | Kind::Hand => self.pointer_color.as_str(),
            Kind::IBeam | Kind::Bar => self.text_color.as_str(),
            _ => {
                proof {
                    reveal_strlit("");
                    assert(""@ =~= Seq::<char>::empty());
                }
                ""
            },
        };
        let asked: &str = if own.unicode_len() == 0 { self.color.as_str() } else { own };
        let rgb: u32 = match color_of(asked) {
            Some(n) => n,
            None => accent,
        };
        let t: Themed = Themed { kind, size: (if self.size <= 128 { self.size } else { 128 }) as u16, rgb };
        if file.unicode_len() == 0 {
            Shape::Themed(t)
        } else {
            Shape::File { path: file.to_owned(), fallback: t }
        }
    }

    /// The pointer for text or not-text, in the configured style.
    pub fn pointer(&self, over_text: bool, accent: u32) -> (r: Shape)
        ensures
            r@ == plain_pointer(*self, over_text, accent),
    {
        if over_text {
            let kind: Kind = match self.over_text {
                TextPointerStyle::Ibeam => Kind::IBeam,
                TextPointerStyle::Bar => Kind::Bar,
            };
            self.themed_or_file(kind, self.text_file.as_str(), Stock::Text, accent)
        } else {
            let kind: Kind = match self.pointer {
                PointerStyle::Arrow => Kind::Arrow,
                PointerStyle::Dart => Kind::Dart,
                PointerStyle::Triangle => Kind::Triangle,
                PointerStyle::Temple => Kind::Temple,
            };
            self.themed_or_file(kind, self.pointer_file.as_str(), Stock::Arrow, accent)
        }
    }

    /// The pointer over wherever the mouse is. The dividers come first; while
    /// an overlay is up it owns the mouse.
    pub fn cursor(&self, over: &Over, accent: u32) -> (r: Shape)
        ensures
            r@ == pointer_over(*self, *over, accent),
    {
        match over.divider {
            Some(Axis::Horizontal) => {
                return self.themed_or_file(
                    Kind::SizeWE,
                    self.resize_we_file.as_str(),
                    Stock::SizeWE,
                    accent,
                );
            },
            Some(Axis::Vertical) => {
                return self.themed_or_file(
                    Kind::SizeNS,
                    self.resize_ns_file.as_str(),
                    Stock::SizeNS,
                    accent,
                );
            },
            None => {},
        }
        if over.dialog_open {
            if over.clickable {
                return self.themed_or_file(Kind::Hand, self.hand_file.as_str(), Stock::Hand, accent);
            }
            return self.pointer(false, accent);
        }
        if over.overlay_open {
            return self.pointer(false, accent);
        }
        self.pointer(over.over_text, accent)
    }
}

/// What the mouse is over.
#[derive(Clone, Copy, Debug, PartialEq, Eq, Structural)]
pub struct Over {
    /// A divider, dragged or under the mouse.
    pub divider: Option<Axis>,
    pub dialog_open: bool,
    /// Something in the dialog that can be pressed.
    pub clickable: bool,
    pub overlay_open: bool,
    /// A pane that text is typed into.
    pub over_text: bool,
}

pub open spec fn plain_pointer(style: Style, over_text: bool, accent: u32) -> ShapeState {
    if over_text {
        dressed(
            style,
            match style.over_text {
                TextPointerStyle::Ibeam => Kind::IBeam,
                TextPointerStyle::Bar => Kind::Bar,
            },
            style.text_file@,
            Stock::Text,
            accent,
        )
    } else {
        dressed(
            style,
            match style.pointer {
                PointerStyle::Arrow => Kind::Arrow,
                PointerStyle::Dart => Kind::Dart,
                PointerStyle::Triangle => Kind::Triangle,
                PointerStyle::Temple => Kind::Temple,
            },
            style.pointer_file@,
            Stock::Arrow,
            accent,
        )
    }
}

pub open spec fn pointer_over(style: Style, over: Over, accent: u32) -> ShapeState {
    match over.divider {
        Some(Axis::Horizontal) => dressed(
            style,
            Kind::SizeWE,
            style.resize_we_file@,
            Stock::SizeWE,
            accent,
        ),
        Some(Axis::Vertical) => dressed(style, Kind::SizeNS, style.resize_ns_file@, Stock::SizeNS, accent),
        None => if over.dialog_open && over.clickable {
            dressed(style, Kind::Hand, style.hand_file@, Stock::Hand, accent)
        } else if over.dialog_open || over.overlay_open {
            plain_pointer(style, false, accent)
        } else {
            plain_pointer(style, over.over_text, accent)
        },
    }
}

/// With custom pointers off the window wears the system's own, whatever else
/// is configured.
pub proof fn a_plain_window_wears_stock_pointers(style: Style, over: Over, accent: u32)
    requires
        !style.custom,
    ensures
        pointer_over(style, over, accent) is Stock,
{
}

/// Hexadecimal digits are read from the left, each worth sixteen times the
/// next, in either case; anything else is no number.
pub proof fn digits_are_read_from_the_left(s: Seq<char>, c: char)
    ensures
        ({
            let value: Option<nat> = if '0' <= c <= '9' {
                Some((c as int - '0' as int) as nat)
            } else if 'a' <= c <= 'f' {
                Some((c as int - 'a' as int + 10) as nat)
            } else if 'A' <= c <= 'F' {
                Some((c as int - 'A' as int + 10) as nat)
            } else {
                None
            };
            hex_digits(s.push(c)) == (match (hex_digits(s), value) {
                (Some(n), Some(d)) => Some(16 * n + d),
                _ => None,
            })
        }),
        hex_digits(Seq::empty()) == Some(0nat),
{
    assert(s.push(c).drop_last() =~= s);
}

/// A colour is written with a hash and six digits.
pub proof fn a_color_is_six_digits(s: Seq<char>)
    requires
        s.len() == 6,
        s[0] != '+',
    ensures
        written_color(seq!['#'] + s) == hex_digits(s),
        written_color(s) is None,
{
    assert((seq!['#'] + s).skip(1) =~= s);
}

/// A pointer of one's own is drawn in the shape, the size and the colour
/// asked for: its own colour, or that of all pointers, or the accent. A file
/// comes before the drawing, which stays for where it cannot be read.
pub proof fn a_pointer_of_ones_own(style: Style, kind: Kind, file: Seq<char>, stock: Stock, accent: u32)
    requires
        style.custom,
    ensures
        ({
            let shape = dressed(style, kind, file, stock, accent);
            let t = if file.len() == 0 { shape->Themed_0 } else { shape->File_fallback };
            &&& file.len() == 0 ==> shape is Themed
            &&& file.len() > 0 ==> shape is File && shape->File_path == file
            &&& t.kind == kind
            &&& style.size <= 128 ==> t.size == style.size
            &&& style.size > 128 ==> t.size == 128
            &&& written_color(asked_color(style, kind)) is None ==> t.rgb == accent
            &&& written_color(asked_color(style, kind)) matches Some(n) ==> (n <= u32::MAX ==> t.rgb == n)
        }),
        kind == Kind::IBeam || kind == Kind::Bar ==> asked_color(style, kind) == (if style.text_color@.len() == 0 {
            style.color@
        } else {
            style.text_color@
        }),
        kind == Kind::SizeWE || kind == Kind::SizeNS ==> asked_color(style, kind) == style.color@,
        kind == Kind::Arrow || kind == Kind::Hand ==> asked_color(style, kind) == (if style.pointer_color@.len() == 0 {
            style.color@
        } else {
            style.pointer_color@
        }),
{
}

/// Which pointer shows: the one for a divider over a divider, a hand over
/// what a click does something with, the one for text over text.
pub proof fn which_pointer_shows(style: Style, over: Over, accent: u32)
    requires
        !style.custom,
    ensures
        ({
            let shows = |s: Stock| pointer_over(style, over, accent) == ShapeState::Stock(s);
            &&& over.divider == Some(Axis::Horizontal) ==> shows(Stock::SizeWE)
            &&& over.divider == Some(Axis::Vertical) ==> shows(Stock::SizeNS)
            &&& over.divider is None ==> {
                &&& over.dialog_open && over.clickable ==> shows(Stock::Hand)
                &&& over.dialog_open && !over.clickable ==> shows(Stock::Arrow)
                &&& !over.dialog_open && over.overlay_open ==> shows(Stock::Arrow)
                &&& !over.dialog_open && !over.overlay_open && over.over_text ==> shows(Stock::Text)
                &&& !over.dialog_open && !over.overlay_open && !over.over_text ==> shows(Stock::Arrow)
            }
        }),
{
}

} // verus!
