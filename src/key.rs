use vstd::prelude::*;

verus! {

/// The keys that the overlay reacts to; every other key is `Other`.
#[derive(PartialEq, Eq, Structural, Clone, Copy, Debug)]
pub enum Key {
    Num0,
    Num1,
    Num2,
    Num3,
    Num4,
    Num5,
    Num6,
    Num7,
    Num8,
    Num9,
    Q,
    W,
    Other,
}

/// An opaque RGB color.
#[derive(PartialEq, Eq, Structural, Clone, Copy, Debug)]
pub struct Color {
    pub r: u8,
    pub g: u8,
    pub b: u8,
}

impl Color {
    pub fn from_rgb(r: u8, g: u8, b: u8) -> (c: Color)
        ensures
            c == (Color { r, g, b }),
    {
        Color { r, g, b }
    }
}

/// The width and color with which every polyline is drawn.
#[derive(PartialEq, Eq, Structural, Clone, Copy, Debug)]
pub struct Stroke {
    pub width: i64,
    pub color: Color,
}

impl Stroke {
    pub fn new(width: i64, color: Color) -> (s: Stroke)
        ensures
            s == (Stroke { width, color }),
    {
        Stroke { width, color }
    }
}

/// The keys that select a color, in order.
pub open spec fn color_keys() -> Seq<Key> {
    seq![Key::Num1, Key::Num2, Key::Num3, Key::Num4, Key::Num5, Key::Num6, Key::Num7, Key::Num8, Key::Num9]
}

/// The keys that change the stroke width: the first widens, the second narrows.
pub open spec fn width_keys() -> Seq<Key> {
    seq![Key::Q, Key::W]
}

/// The color that each color key selects; no other key selects one.
pub open spec fn color_for_key(k: Key) -> Option<Color> {
    match k {
        Key::Num1 => Some(Color { r: 136, g: 57, b: 239 }),
        Key::Num2 => Some(Color { r: 210, g: 15, b: 57 }),
        Key::Num3 => Some(Color { r: 254, g: 100, b: 11 }),
        Key::Num4 => Some(Color { r: 64, g: 160, b: 43 }),
        Key::Num5 => Some(Color { r: 32, g: 159, b: 181 }),
        Key::Num6 => Some(Color { r: 30, g: 102, b: 245 }),
        Key::Num7 => Some(Color { r: 114, g: 135, b: 253 }),
        Key::Num8 => Some(Color { r: 76, g: 79, b: 105 }),
        Key::Num9 => Some(Color { r: 239, g: 241, b: 245 }),
        _ => None,
    }
}

/// How much a key changes the stroke width by.
pub open spec fn width_delta(k: Key) -> int {
    match k {
        Key::Q => 1,
        Key::W => -1,
        _ => 0,
    }
}

/// A key selects a color exactly when it is one of the color keys.
pub proof fn lemma_color_keys(k: Key)
    ensures
        color_keys().contains(k) <==> color_for_key(k).is_some(),
{
    let s = color_keys();
    if color_for_key(k).is_some() {
        let i: int = match k {
            Key::Num1 => 0,
            Key::Num2 => 1,
            Key::Num3 => 2,
            Key::Num4 => 3,
            Key::Num5 => 4,
            Key::Num6 => 5,
            Key::Num7 => 6,
            Key::Num8 => 7,
            _ => 8,
        };
        assert(s[i] == k);
    }
}

/// A key changes the width exactly when it is one of the width keys.
pub proof fn lemma_width_keys(k: Key)
    ensures
        width_keys().contains(k) <==> (k == Key::Q || k == Key::W),
{
    let s = width_keys();
    if k == Key::Q {
        assert(s[0] == k);
    } else if k == Key::W {
        assert(s[1] == k);
    }
}

/// The color that a color key selects, or `None` for any other key.
pub fn change_color(key: &Key) -> (r: Option<Color>)
    ensures
        r == color_for_key(*key),
{
    match key {
        Key::Num1 => Some(Color::from_rgb(136, 57, 239)),
        Key::Num2 => Some(Color::from_rgb(210, 15, 57)),
        Key::Num3 => Some(Color::from_rgb(254, 100, 11)),
        Key::Num4 => Some(Color::from_rgb(64, 160, 43)),
        Key::Num5 => Some(Color::from_rgb(32, 159, 181)),
        Key::Num6 => Some(Color::from_rgb(30, 102, 245)),
        Key::Num7 => Some(Color::from_rgb(114, 135, 253)),
        Key::Num8 => Some(Color::from_rgb(76, 79, 105)),
        Key::Num9 => Some(Color::from_rgb(239, 241, 245)),
        _ => None,
    }
}

/// The width after `key` is pressed: one more for `Q`, one less for `W`,
/// unchanged otherwise. Nothing keeps the width positive.
pub fn change_stroke_width(key: &Key, width: i64) -> (r: i64)
    requires
        i64::MIN <= width + width_delta(*key) <= i64::MAX,
    ensures
        r == width + width_delta(*key),
{
    match key {
        Key::Q => width + 1,
        Key::W => width - 1,
        _ => width,
    }
}

/// Whether `k` occurs in `keys`.
pub fn contains_key(keys: &Vec<Key>, k: &Key) -> (r: bool)
    ensures
        r == keys@.contains(*k),
{
    let mut i: usize = 0;
    while i < keys.len()
        invariant
            i <= keys.len(),
            forall|j: int| 0 <= j < i ==> keys@[j] != *k,
        decreases keys.len() - i,
    {
        if keys[i] == *k {
            return true;
        }
        i = i + 1;
    }
    false
}

/// The keys bound to colors and to the stroke width.
pub struct Keyboard {
    pub colors: Vec<Key>,
    pub stroke_width: Vec<Key>,
}

impl Keyboard {
    /// The bindings in use: the nine digit keys for colors, `Q` and `W` for the width.
    pub open spec fn is_standard(&self) -> bool {
        self.colors@ == color_keys() && self.stroke_width@ == width_keys()
    }

    pub fn new() -> (kb: Keyboard)
        ensures
            kb.is_standard(),
    {
        let kb = Keyboard {
            colors: vec![
                Key::Num1,
                Key::Num2,
                Key::Num3,
                Key::Num4,
                Key::Num5,
                Key::Num6,
                Key::Num7,
                Key::Num8,
                Key::Num9,
            ],
            stroke_width: vec![Key::Q, Key::W],
        };
        assert(kb.colors@ =~= color_keys());
        assert(kb.stroke_width@ =~= width_keys());
        kb
    }
}

} // verus!
