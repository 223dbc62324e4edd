use vstd::prelude::*;

use crate::drawing::{copy_line, drawable, has_segment, lines_view, pointer_changes, pointer_step, Point};
use crate::key::{
    change_color, change_stroke_width, color_for_key, color_keys, contains_key, lemma_color_keys,
    lemma_width_keys, width_delta, width_keys, Color, Key, Keyboard, Stroke,
};

verus! {

/// A key going down or up, with whether control was held.
#[derive(PartialEq, Eq, Structural, Clone, Copy, Debug)]
pub struct KeyEvent {
    pub key: Key,
    pub pressed: bool,
    pub ctrl: bool,
}

/// What a key event did.
#[derive(PartialEq, Eq, Structural, Clone, Copy, Debug)]
pub enum KeyOutcome {
    /// A color key was pressed and its color is now current.
    ColorChanged,
    /// A width key was pressed and the width changed by one.
    WidthChanged,
    /// `Q` with control held and no width change: a shortcut that only
    /// reports itself.
    CtrlQ,
    /// Nothing happened.
    Ignored,
}

/// The pen: the current color and stroke width.
pub ghost struct Pen {
    pub color: Color,
    pub width: int,
}

/// What a key event does with the standard bindings: a pressed color key
/// selects its color, a pressed width key changes the width, nothing else
/// touches the pen.
pub open spec fn key_outcome(ev: KeyEvent) -> KeyOutcome {
    if ev.pressed && color_for_key(ev.key).is_some() {
        KeyOutcome::ColorChanged
    } else if ev.pressed && (ev.key == Key::Q || ev.key == Key::W) {
        KeyOutcome::WidthChanged
    } else if ev.key == Key::Q && ev.ctrl {
        KeyOutcome::CtrlQ
    } else {
        KeyOutcome::Ignored
    }
}

/// The pen after one key event.
pub open spec fn press_key(pen: Pen, ev: KeyEvent) -> Pen {
    match key_outcome(ev) {
        KeyOutcome::ColorChanged => Pen { color: color_for_key(ev.key).unwrap(), width: pen.width },
        KeyOutcome::WidthChanged => Pen { color: pen.color, width: pen.width + width_delta(ev.key) },
        _ => pen,
    }
}

/// The pen after a run of key events, in order.
pub open spec fn press_keys(pen: Pen, evs: Seq<KeyEvent>) -> Pen
    decreases evs.len(),
{
    if evs.len() == 0 {
        pen
    } else {
        press_key(press_keys(pen, evs.drop_last()), evs.last())
    }
}

/// How many events of `evs` are on key `k`.
pub open spec fn count_key(evs: Seq<KeyEvent>, k: Key) -> nat {
    evs.filter(on_key(k)).len()
}

/// Whether an event is on key `k`.
pub open spec fn on_key(k: Key) -> spec_fn(KeyEvent) -> bool {
    |e: KeyEvent| e.key == k
}

/// Pressing a color key makes its color current whatever the pen was, and
/// leaves the width alone.
pub proof fn lemma_color_key_sets_color(pen: Pen, ev: KeyEvent)
    requires
        ev.pressed,
        color_keys().contains(ev.key),
    ensures
        press_key(pen, ev).color == color_for_key(ev.key).unwrap(),
        press_key(pen, ev).width == pen.width,
{
    lemma_color_keys(ev.key);
}

/// Pressing the widen key `n` times and the narrow key `m` times, in any
/// order, changes the width by exactly `n - m`, with no bound, and keeps the
/// color.
pub proof fn lemma_width_presses(pen: Pen, evs: Seq<KeyEvent>)
    requires
        forall|i: int| 0 <= i < evs.len() ==> (#[trigger] evs[i]).pressed && width_keys().contains(evs[i].key),
    ensures
        press_keys(pen, evs).width == pen.width + count_key(evs, Key::Q) - count_key(evs, Key::W),
        press_keys(pen, evs).color == pen.color,
    decreases evs.len(),
{
    if evs.len() > 0 {
        let rest = evs.drop_last();
        assert forall|i: int| 0 <= i < rest.len() implies (#[trigger] rest[i]).pressed && width_keys().contains(rest[i].key) by {
            assert(rest[i] == evs[i]);
        }
        lemma_width_presses(pen, rest);
        let e = evs.last();
        assert(e == evs[evs.len() - 1]);
        lemma_width_keys(e.key);
        assert(evs =~= rest.push(e));
        rest.lemma_filter_len_push(on_key(Key::Q), e);
        rest.lemma_filter_len_push(on_key(Key::W), e);
    }
}

/// A drawing session: the polylines drawn so far and the pen they are drawn with.
pub struct Octopus {
    pub color: Color,
    pub keyboard: Keyboard,
    pub lines: Vec<Vec<Point>>,
    pub stroke: Stroke,
    pub stroke_width: i64,
}

impl Octopus {
    /// The bindings are the standard ones and the stroke is the current
    /// width with the current color.
    pub open spec fn wf(&self) -> bool {
        &&& self.keyboard.is_standard()
        &&& self.stroke == (Stroke { width: self.stroke_width, color: self.color })
    }

    pub open spec fn pen(&self) -> Pen {
        Pen { color: self.color, width: self.stroke_width as int }
    }

    pub open spec fn lines_view(&self) -> Seq<Seq<Point>> {
        lines_view(self.lines@)
    }

    /// A new session: no polylines, black, width one.
    pub fn new() -> (o: Octopus)
        ensures
            o.wf(),
            o.lines_view() == Seq::<Seq<Point>>::empty(),
            o.color == (Color { r: 0, g: 0, b: 0 }),
            o.stroke_width == 1,
    {
        let o = Octopus {
            color: Color::from_rgb(0, 0, 0),
            lines: Vec::new(),
            keyboard: Keyboard::new(),
            stroke: Stroke::new(1, Color::from_rgb(0, 0, 0)),
            stroke_width: 1,
        };
        assert(o.lines_view() =~= Seq::<Seq<Point>>::empty());
        o
    }

    /// Applies one key event to the pen and says what it did.
    pub fn handle_key(&mut self, ev: KeyEvent) -> (r: KeyOutcome)
        requires
            old(self).wf(),
            i64::MIN < old(self).stroke_width < i64::MAX,
        ensures
            final(self).wf(),
            final(self).pen() == press_key(old(self).pen(), ev),
            final(self).lines == old(self).lines,
            r == key_outcome(ev),
    {
        proof {
            lemma_color_keys(ev.key);
            lemma_width_keys(ev.key);
        }
        if ev.pressed && contains_key(&self.keyboard.colors, &ev.key) {
            match change_color(&ev.key) {
                Some(c) => {
                    self.color = c;
                },
                None => {},
            }
            self.stroke = Stroke::new(self.stroke_width, self.color);
            KeyOutcome::ColorChanged
        } else if ev.pressed && contains_key(&self.keyboard.stroke_width, &ev.key) {
            self.stroke_width = change_stroke_width(&ev.key, self.stroke_width);
            self.stroke = Stroke::new(self.stroke_width, self.color);
            KeyOutcome::WidthChanged
        } else if ev.key == Key::Q && ev.ctrl {
            KeyOutcome::CtrlQ
        } else {
            KeyOutcome::Ignored
        }
    }

    /// Applies a frame's key events in order, returning what each did.
    pub fn handle_events(&mut self, events: &Vec<KeyEvent>) -> (r: Vec<KeyOutcome>)
        requires
            old(self).wf(),
            i64::MIN + events.len() < old(self).stroke_width < i64::MAX - events.len(),
        ensures
            final(self).wf(),
            final(self).pen() == press_keys(old(self).pen(), events@),
            final(self).lines == old(self).lines,
            r@ == events@.map_values(|e: KeyEvent| key_outcome(e)),
    {
        let mut r: Vec<KeyOutcome> = Vec::new();
        let mut i: usize = 0;
        while i < events.len()
            invariant
                i <= events.len(),
                self.wf(),
                self.pen() == press_keys(old(self).pen(), events@.take(i as int)),
                self.lines == old(self).lines,
                old(self).stroke_width - i <= self.stroke_width <= old(self).stroke_width + i,
                i64::MIN + events.len() < old(self).stroke_width < i64::MAX - events.len(),
                r@ == events@.take(i as int).map_values(|e: KeyEvent| key_outcome(e)),
            decreases events.len() - i,
        {
            let ev = events[i];
            let out = self.handle_key(ev);
            r.push(out);
            assert(events@.take(i + 1).drop_last() =~= events@.take(i as int));
            i = i + 1;
            assert(r@ =~= events@.take(i as int).map_values(|e: KeyEvent| key_outcome(e)));
        }
        assert(events@.take(i as int) =~= events@);
        r
    }

    /// One frame of pointer input: the pressed pointer's canvas position, or
    /// `None` when it is up. Returns whether the drawing changed.
    pub fn handle_pointer(&mut self, pos: Option<Point>) -> (changed: bool)
        ensures
            final(self).lines_view() == pointer_step(old(self).lines_view(), pos),
            changed == pointer_changes(old(self).lines_view(), pos),
            final(self).color == old(self).color,
            final(self).keyboard == old(self).keyboard,
            final(self).stroke == old(self).stroke,
            final(self).stroke_width == old(self).stroke_width,
    {
        let ghost lv0 = self.lines_view();
        if self.lines.len() == 0 {
            self.lines.push(Vec::new());
            assert(self.lines_view() =~= seq![Seq::<Point>::empty()]);
        }
        let ghost ls = self.lines_view();
        assert(ls == crate::drawing::with_current(lv0));
        let mut cur = self.lines.pop().unwrap();
        assert(cur@ == ls.last());
        assert(self.lines_view() =~= ls.drop_last());
        match pos {
            Some(p) => {
                if cur.len() == 0 || cur[cur.len() - 1] != p {
                    cur.push(p);
                    self.lines.push(cur);
                    assert(self.lines_view() =~= ls.update(ls.len() - 1, ls.last().push(p)));
                    true
                } else {
                    self.lines.push(cur);
                    assert(self.lines_view() =~= ls);
                    false
                }
            },
            None => {
                if cur.len() > 0 {
                    self.lines.push(cur);
                    self.lines.push(Vec::new());
                    assert(self.lines_view() =~= ls.push(Seq::empty()));
                    true
                } else {
                    self.lines.push(cur);
                    assert(self.lines_view() =~= ls);
                    false
                }
            },
        }
    }

    /// The polylines to draw this frame, all with the current stroke: those
    /// with two points or more, in the order they were drawn.
    pub fn drawable_lines(&self) -> (r: Vec<Vec<Point>>)
        ensures
            lines_view(r@) == drawable(self.lines_view()),
    {
        let ghost lv = self.lines_view();
        let mut r: Vec<Vec<Point>> = Vec::new();
        let mut i: usize = 0;
        while i < self.lines.len()
            invariant
                i <= self.lines.len(),
                lv == self.lines_view(),
                lines_view(r@) == drawable(lv.take(i as int)),
            decreases self.lines.len() - i,
        {
            assert(lv.take(i + 1) =~= lv.take(i as int).push(self.lines@[i as int]@));
            proof {
                lv.take(i as int).lemma_filter_push(self.lines@[i as int]@, has_segment());
            }
            let ghost old_r = r@;
            if self.lines[i].len() >= 2 {
                let l = copy_line(&self.lines[i]);
                r.push(l);
                assert(lines_view(r@) =~= lines_view(old_r).push(lv[i as int]));
            }
            i = i + 1;
        }
        assert(lv.take(i as int) =~= lv);
        r
    }
}

impl Default for Octopus {
    fn default() -> (o: Octopus)
        ensures
            o.wf(),
            o.lines_view() == Seq::<Seq<Point>>::empty(),
            o.color == (Color { r: 0, g: 0, b: 0 }),
            o.stroke_width == 1,
    {
        Octopus::new()
    }
}

} // verus!
