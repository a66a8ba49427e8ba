//! The drawing state of the annotation tools: the points a drag has gone
//! through, the text being typed, and what would be committed.
//!
//! Drawing on the canvas happens around the library; it hands the tools
//! their input (left-button presses and releases, pointer moves, and keys
//! pressed while typing) and reads back their shapes.
use vstd::prelude::*;
pub use crate::input::KeyInput;

verus! {

/// A point in canvas pixels.
#[derive(Debug, Clone, Copy, PartialEq, Eq, Structural)]
pub struct Point {
    pub x: i32,
    pub y: i32,
}

/// A rectangle in canvas pixels.
#[derive(Debug, Clone, Copy, PartialEq, Eq, Structural)]
pub struct Rect {
    pub x: i32,
    pub y: i32,
    pub width: u32,
    pub height: u32,
}

/// Input to a tool.
#[derive(Debug, Clone, Copy, PartialEq, Eq, Structural)]
pub enum ToolEvent {
    /// The left button went down at a point.
    Press(Point),
    /// The pointer moved to a point.
    Move(Point),
    /// The left button went up at a point.
    Release(Point),
    /// A key was pressed.
    Key(KeyInput),
    /// Anything else.
    Other,
}

/// The distance between two coordinates.
pub open spec fn dist(a: i32, b: i32) -> int {
    if a >= b {
        a - b
    } else {
        b - a
    }
}

/// The smaller of two coordinates.
pub open spec fn min_i32(a: i32, b: i32) -> i32 {
    if a <= b {
        a
    } else {
        b
    }
}

fn distance(a: i32, b: i32) -> (d: u32)
    ensures
        d == dist(a, b),
{
    if a >= b {
        (a as i64 - b as i64) as u32
    } else {
        (b as i64 - a as i64) as u32
    }
}

/// The span between two points fits the coordinate type (as the
/// subtraction of two coordinates must).
pub open spec fn span_fits(a: Point, b: Point) -> bool {
    dist(a.x, b.x) <= i32::MAX && dist(a.y, b.y) <= i32::MAX
}

/// The rectangle with corners `a` and `b`, at least one pixel wide and
/// high.
pub open spec fn rect_between(a: Point, b: Point) -> Rect {
    Rect {
        x: min_i32(a.x, b.x),
        y: min_i32(a.y, b.y),
        width: if dist(a.x, b.x) >= 1 {
            dist(a.x, b.x) as u32
        } else {
            1
        },
        height: if dist(a.y, b.y) >= 1 {
            dist(a.y, b.y) as u32
        } else {
            1
        },
    }
}

/// The state of a tool that is dragged from one point to another (line,
/// arrow, rectangle, blur region).
#[derive(Debug)]
pub struct DragState {
    start: Option<Point>,
    end: Option<Point>,
    drawing: bool,
}

impl DragState {
    /// Where the drag started.
    pub closed spec fn from(&self) -> Option<Point> {
        self.start
    }

    /// Where the drag is now (or ended).
    pub closed spec fn to(&self) -> Option<Point> {
        self.end
    }

    /// Whether the button is still down.
    pub closed spec fn dragging(&self) -> bool {
        self.drawing
    }

    /// Both ends of the drag, when there is one.
    pub open spec fn ends(&self) -> Option<(Point, Point)> {
        match (self.from(), self.to()) {
            (Some(a), Some(b)) => Some((a, b)),
            _ => None,
        }
    }

    /// The drag after `ev`, and whether the preview changed.
    pub open spec fn next(&self, ev: ToolEvent) -> (Option<Point>, Option<Point>, bool, bool) {
        match ev {
            ToolEvent::Press(p) => (Some(p), Some(p), true, true),
            ToolEvent::Move(p) => if self.dragging() {
                (self.from(), Some(p), true, true)
            } else {
                (self.from(), self.to(), self.dragging(), false)
            },
            ToolEvent::Release(p) => if self.dragging() {
                (self.from(), Some(p), false, true)
            } else {
                (self.from(), self.to(), self.dragging(), false)
            },
            _ => (self.from(), self.to(), self.dragging(), false),
        }
    }

    /// No drag.
    pub fn new() -> (s: Self)
        ensures
            s.from() is None,
            s.to() is None,
            !s.dragging(),
    {
        DragState { start: None, end: None, drawing: false }
    }

    /// A press starts a drag at its point, a move or release during a drag
    /// moves its end (a release ends the drag).  Returns whether the
    /// preview changed.
    pub fn handle_event(&mut self, ev: ToolEvent) -> (changed: bool)
        ensures
            (final(self).from(), final(self).to(), final(self).dragging(), changed) == old(self).next(ev),
    {
        match ev {
            ToolEvent::Press(p) => {
                self.start = Some(p);
                self.end = Some(p);
                self.drawing = true;
                true
            },
            ToolEvent::Move(p) => {
                if self.drawing {
                    self.end = Some(p);
                    true
                } else {
                    false
                }
            },
            ToolEvent::Release(p) => {
                if self.drawing {
                    self.end = Some(p);
                    self.drawing = false;
                    true
                } else {
                    false
                }
            },
            _ => false,
        }
    }

    /// Clear the drag.
    pub fn reset(&mut self)
        ensures
            final(self).from() is None,
            final(self).to() is None,
            !final(self).dragging(),
    {
        self.start = None;
        self.end = None;
        self.drawing = false;
    }

    /// Whether the button is still down.
    pub fn is_drawing(&self) -> (b: bool)
        ensures
            b == self.dragging(),
    {
        self.drawing
    }

    /// Both ends of the drag.
    pub fn ends_exec(&self) -> (r: Option<(Point, Point)>)
        ensures
            r == self.ends(),
    {
        match (self.start, self.end) {
            (Some(a), Some(b)) => Some((a, b)),
            _ => None,
        }
    }

    /// The rectangle of the drag (at least one pixel each way).
    pub fn bounds(&self) -> (r: Option<Rect>)
        requires
            self.ends() matches Some((a, b)) ==> span_fits(a, b),
        ensures
            match self.ends() {
                Some((a, b)) => r == Some(rect_between(a, b)),
                None => r is None,
            },
    {
        match self.ends_exec() {
            Some((a, b)) => {
                let w = distance(a.x, b.x);
                let h = distance(a.y, b.y);
                Some(
                    Rect {
                        x: if a.x <= b.x {
                            a.x
                        } else {
                            b.x
                        },
                        y: if a.y <= b.y {
                            a.y
                        } else {
                            b.y
                        },
                        width: if w >= 1 {
                            w
                        } else {
                            1
                        },
                        height: if h >= 1 {
                            h
                        } else {
                            1
                        },
                    },
                )
            },
            None => None,
        }
    }
}

/// Line tool: a line is worth committing once its ends differ.
pub fn line_can_commit(d: &DragState) -> (b: bool)
    ensures
        b == (d.ends() matches Some((a, e)) && (a.x != e.x || a.y != e.y)),
{
    match d.ends_exec() {
        Some((a, e)) => a.x != e.x || a.y != e.y,
        None => false,
    }
}

/// Arrow tool: an arrow is worth committing once it is longer than five
/// pixels one way.
pub fn arrow_can_commit(d: &DragState) -> (b: bool)
    requires
        d.ends() matches Some((a, e)) ==> span_fits(a, e),
    ensures
        b == (d.ends() matches Some((a, e)) && (dist(a.x, e.x) > 5 || dist(a.y, e.y) > 5)),
{
    match d.ends_exec() {
        Some((a, e)) => distance(a.x, e.x) > 5 || distance(a.y, e.y) > 5,
        None => false,
    }
}

/// Rectangle tool: a rectangle is worth committing once it is more than
/// two pixels each way.
pub fn rect_can_commit(d: &DragState) -> (b: bool)
    requires
        d.ends() matches Some((a, e)) ==> span_fits(a, e),
    ensures
        b == (d.ends() matches Some((a, e)) && dist(a.x, e.x) > 2 && dist(a.y, e.y) > 2),
{
    match d.ends_exec() {
        Some((a, e)) => distance(a.x, e.x) > 2 && distance(a.y, e.y) > 2,
        None => false,
    }
}

/// Blur tool selection: the region (x, y, width, height) between the ends
/// of the drag, when it is more than two pixels each way.
pub fn blur_bounds(d: &DragState) -> (r: Option<(i32, i32, u32, u32)>)
    requires
        d.ends() matches Some((a, e)) ==> span_fits(a, e),
    ensures
        match d.ends() {
            Some((a, e)) => if dist(a.x, e.x) > 2 && dist(a.y, e.y) > 2 {
                r == Some(
                    (min_i32(a.x, e.x), min_i32(a.y, e.y), dist(a.x, e.x) as u32, dist(a.y, e.y) as u32),
                )
            } else {
                r is None
            },
            None => r is None,
        },
{
    match d.ends_exec() {
        Some((a, e)) => {
            let w = distance(a.x, e.x);
            let h = distance(a.y, e.y);
            if w > 2 && h > 2 {
                let x = if a.x <= e.x {
                    a.x
                } else {
                    e.x
                };
                let y = if a.y <= e.y {
                    a.y
                } else {
                    e.y
                };
                Some((x, y, w, h))
            } else {
                None
            }
        },
        None => None,
    }
}

/// The smallest and largest coordinates of a list of points.
pub open spec fn extent(ps: Seq<Point>) -> (i32, i32, i32, i32)
    decreases ps.len(),
{
    if ps.len() == 1 {
        (ps[0].x, ps[0].x, ps[0].y, ps[0].y)
    } else if ps.len() == 0 {
        (0, 0, 0, 0)
    } else {
        let (x0, x1, y0, y1) = extent(ps.drop_last());
        let p = ps.last();
        (
            if p.x < x0 {
                p.x
            } else {
                x0
            },
            if p.x > x1 {
                p.x
            } else {
                x1
            },
            if p.y < y0 {
                p.y
            } else {
                y0
            },
            if p.y > y1 {
                p.y
            } else {
                y1
            },
        )
    }
}

/// Highlighter stroke: the points the pointer went through.
#[derive(Debug)]
pub struct HighlightStroke {
    points: Vec<Point>,
    drawing: bool,
}

impl HighlightStroke {
    /// The points of the stroke.
    pub closed spec fn path(&self) -> Seq<Point> {
        self.points@
    }

    /// Whether the button is still down.
    pub closed spec fn dragging(&self) -> bool {
        self.drawing
    }

    /// No stroke.
    pub fn new() -> (s: Self)
        ensures
            s.path() == Seq::<Point>::empty(),
            !s.dragging(),
    {
        HighlightStroke { points: Vec::new(), drawing: false }
    }

    /// A press starts a new stroke at its point; moves and the release
    /// during a stroke add theirs.  Returns whether the preview changed.
    pub fn handle_event(&mut self, ev: ToolEvent) -> (changed: bool)
        ensures
            match ev {
                ToolEvent::Press(p) => changed && final(self).path() == seq![p]
                    && final(self).dragging(),
                ToolEvent::Move(p) => changed == old(self).dragging() && (changed ==> final(self).path() == old(self).path().push(p) && final(self).dragging()),
                ToolEvent::Release(p) => changed == old(self).dragging() && (changed ==> final(self).path() == old(self).path().push(p) && !final(self).dragging()),
                _ => !changed,
            },
            !changed ==> final(self).path() == old(self).path() && final(self).dragging() == old(self).dragging(),
    {
        match ev {
            ToolEvent::Press(p) => {
                self.points.clear();
                self.points.push(p);
                self.drawing = true;
                true
            },
            ToolEvent::Move(p) => {
                if self.drawing {
                    self.points.push(p);
                    true
                } else {
                    false
                }
            },
            ToolEvent::Release(p) => {
                if self.drawing {
                    self.points.push(p);
                    self.drawing = false;
                    true
                } else {
                    false
                }
            },
            _ => false,
        }
    }

    /// Clear the stroke.
    pub fn reset(&mut self)
        ensures
            final(self).path() == Seq::<Point>::empty(),
            !final(self).dragging(),
    {
        self.points.clear();
        self.drawing = false;
    }

    /// Whether the button is still down.
    pub fn is_drawing(&self) -> (b: bool)
        ensures
            b == self.dragging(),
    {
        self.drawing
    }

    /// A stroke of two points or more is worth committing.
    pub fn can_commit(&self) -> (b: bool)
        ensures
            b == (self.path().len() >= 2),
    {
        self.points.len() >= 2
    }

    /// The bounding rectangle of the stroke (at least one pixel each way).
    pub fn bounds(&self) -> (r: Option<Rect>)
        requires
            self.path().len() > 0 ==> extent(self.path()).1 - extent(self.path()).0 <= i32::MAX
                && extent(self.path()).3 - extent(self.path()).2 <= i32::MAX,
        ensures
            self.path().len() == 0 ==> r is None,
            self.path().len() > 0 ==> {
                let (x0, x1, y0, y1) = extent(self.path());
                r == Some(
                    Rect {
                        x: x0,
                        y: y0,
                        width: if x1 - x0 >= 1 {
                            (x1 - x0) as u32
                        } else {
                            1
                        },
                        height: if y1 - y0 >= 1 {
                            (y1 - y0) as u32
                        } else {
                            1
                        },
                    },
                )
            },
    {
        let n = self.points.len();
        if n == 0 {
            return None;
        }
        let mut x0 = self.points[0].x;
        let mut x1 = self.points[0].x;
        let mut y0 = self.points[0].y;
        let mut y1 = self.points[0].y;
        let mut k: usize = 1;
        proof {
            assert(self.points@.take(1) =~= seq![self.points@[0]]);
        }
        while k < n
            invariant
                1 <= k <= n,
                n == self.points@.len(),
                (x0, x1, y0, y1) == extent(self.points@.take(k as int)),
                x0 <= x1,
                y0 <= y1,
            decreases n - k,
        {
            proof {
                assert(self.points@.take(k + 1).drop_last() =~= self.points@.take(k as int));
            }
            let p = self.points[k];
            if p.x < x0 {
                x0 = p.x;
            }
            if p.x > x1 {
                x1 = p.x;
            }
            if p.y < y0 {
                y0 = p.y;
            }
            if p.y > y1 {
                y1 = p.y;
            }
            k = k + 1;
        }
        proof {
            assert(self.points@.take(n as int) =~= self.points@);
        }
        let w = (x1 as i64 - x0 as i64) as u32;
        let h = (y1 as i64 - y0 as i64) as u32;
        Some(
            Rect {
                x: x0,
                y: y0,
                width: if w >= 1 {
                    w
                } else {
                    1
                },
                height: if h >= 1 {
                    h
                } else {
                    1
                },
            },
        )
    }
}

/// Text tool: where the text goes, the text typed so far, and its cursor
/// (in characters).
#[derive(Debug)]
pub struct TextTool {
    position: Option<Point>,
    text: Vec<char>,
    typing: bool,
    cursor_pos: usize,
}

impl TextTool {
    /// Where the text goes.
    pub closed spec fn anchor(&self) -> Option<Point> {
        self.position
    }

    /// The text typed.
    pub closed spec fn typed(&self) -> Seq<char> {
        self.text@
    }

    /// Whether keys go to the text.
    pub closed spec fn is_typing(&self) -> bool {
        self.typing
    }

    /// The cursor, in characters.
    pub closed spec fn cursor(&self) -> nat {
        self.cursor_pos as nat
    }

    /// While typing, the cursor lies within the text.
    pub open spec fn well_formed(&self) -> bool {
        self.is_typing() ==> self.cursor() <= self.typed().len()
    }

    /// The tool after a key pressed while typing: (anchor, text, typing,
    /// cursor, changed).
    pub open spec fn after_key(&self, k: KeyInput) -> (Option<Point>, Seq<char>, bool, nat, bool) {
        let (pos, t, c) = (self.anchor(), self.typed(), self.cursor());
        match k {
            KeyInput::Return => (pos, t, false, c, true),
            KeyInput::Escape => (None, Seq::empty(), false, c, true),
            KeyInput::Backspace => if c > 0 {
                (pos, t.remove(c - 1), true, (c - 1) as nat, true)
            } else {
                (pos, t, true, c, true)
            },
            KeyInput::Delete => if c < t.len() {
                (pos, t.remove(c as int), true, c, true)
            } else {
                (pos, t, true, c, true)
            },
            KeyInput::Left => (pos, t, true, if c > 0 {
                (c - 1) as nat
            } else {
                c
            }, true),
            KeyInput::Right => (pos, t, true, if c < t.len() {
                c + 1
            } else {
                c
            }, true),
            KeyInput::Home => (pos, t, true, 0, true),
            KeyInput::End => (pos, t, true, t.len(), true),
            KeyInput::Space => (pos, t.insert(c as int, ' '), true, c + 1, true),
            KeyInput::Char(ch) => (pos, t.insert(c as int, ch), true, c + 1, true),
            _ => (pos, t, true, c, false),
        }
    }

    /// No text.
    pub fn new() -> (s: Self)
        ensures
            s.anchor() is None,
            s.typed() == Seq::<char>::empty(),
            !s.is_typing(),
            s.cursor() == 0,
    {
        TextTool { position: None, text: Vec::new(), typing: false, cursor_pos: 0 }
    }

    /// A press while typing ends the typing (the text is then committed);
    /// otherwise it starts new text at its point.  Keys edit the text while
    /// typing: Return ends it, Escape drops it, Backspace and Delete remove
    /// a character, the arrows, Home and End move the cursor, Space and
    /// characters are inserted.  Returns whether the preview changed.
    pub fn handle_event(&mut self, ev: ToolEvent) -> (changed: bool)
        requires
            old(self).well_formed(),
        ensures
            final(self).well_formed(),
            match ev {
                ToolEvent::Press(p) => if old(self).is_typing() {
                    !changed && !final(self).is_typing() && final(self).anchor() == old(self).anchor() && final(self).typed() == old(self).typed() && final(self).cursor()
                        == old(self).cursor()
                } else {
                    &&& changed
                    &&& final(self).anchor() == Some(p)
                    &&& final(self).typed() == Seq::<char>::empty()
                    &&& final(self).cursor() == 0
                    &&& final(self).is_typing()
                },
                ToolEvent::Key(k) => if old(self).is_typing() {
                    (final(self).anchor(), final(self).typed(), final(self).is_typing(), final(self).cursor(), changed) == old(self).after_key(k)
                } else {
                    !changed && *final(self) == *old(self)
                },
                _ => !changed && *final(self) == *old(self),
            },
    {
        match ev {
            ToolEvent::Press(p) => {
                if self.typing {
                    self.typing = false;
                    false
                } else {
                    self.position = Some(p);
                    self.text = Vec::new();
                    self.cursor_pos = 0;
                    self.typing = true;
                    true
                }
            },
            ToolEvent::Key(k) => {
                if !self.typing {
                    return false;
                }
                match k {
                    KeyInput::Return => {
                        self.typing = false;
                        true
                    },
                    KeyInput::Escape => {
                        self.text = Vec::new();
                        self.position = None;
                        self.typing = false;
                        true
                    },
                    KeyInput::Backspace => {
                        if self.cursor_pos > 0 {
                            self.text.remove(self.cursor_pos - 1);
                            self.cursor_pos = self.cursor_pos - 1;
                        }
                        true
                    },
                    KeyInput::Delete => {
                        if self.cursor_pos < self.text.len() {
                            self.text.remove(self.cursor_pos);
                        }
                        true
                    },
                    KeyInput::Left => {
                        if self.cursor_pos > 0 {
                            self.cursor_pos = self.cursor_pos - 1;
                        }
                        true
                    },
                    KeyInput::Right => {
                        if self.cursor_pos < self.text.len() {
                            self.cursor_pos = self.cursor_pos + 1;
                        }
                        true
                    },
                    KeyInput::Home => {
                        self.cursor_pos = 0;
                        true
                    },
                    KeyInput::End => {
                        self.cursor_pos = self.text.len();
                        true
                    },
                    KeyInput::Space => {
                        self.text.insert(self.cursor_pos, ' ');
                        let n = self.text.len();
                        assert(self.cursor_pos < n);
                        self.cursor_pos = self.cursor_pos + 1;
                        true
                    },
                    KeyInput::Char(c) => {
                        self.text.insert(self.cursor_pos, c);
                        let n = self.text.len();
                        assert(self.cursor_pos < n);
                        self.cursor_pos = self.cursor_pos + 1;
                        true
                    },
                    _ => false,
                }
            },
            _ => false,
        }
    }

    /// Clear the text.
    pub fn reset(&mut self)
        ensures
            final(self).anchor() is None,
            final(self).typed() == Seq::<char>::empty(),
            !final(self).is_typing(),
            final(self).cursor() == 0,
    {
        self.position = None;
        self.text = Vec::new();
        self.typing = false;
        self.cursor_pos = 0;
    }

    /// Whether keys go to the text.
    pub fn is_drawing(&self) -> (b: bool)
        ensures
            b == self.is_typing(),
    {
        self.typing
    }

    /// Placed, non-empty text that is no longer being typed is committed.
    pub fn can_commit(&self) -> (b: bool)
        ensures
            b == (self.anchor() is Some && self.typed().len() > 0 && !self.is_typing()),
    {
        self.position.is_some() && self.text.len() > 0 && !self.typing
    }

    /// The text typed.
    pub fn text(&self) -> (s: String)
        ensures
            s@ == self.typed(),
    {
        crate::text::string_of(self.text.as_slice())
    }

    /// Where the text goes.
    pub fn position(&self) -> (p: Option<Point>)
        ensures
            p == self.anchor(),
    {
        self.position
    }

    /// The cursor while typing (in characters), none otherwise.
    pub fn typing_cursor(&self) -> (c: Option<usize>)
        ensures
            self.is_typing() ==> c == Some(self.cursor() as usize),
            !self.is_typing() ==> c is None,
    {
        if self.typing {
            Some(self.cursor_pos)
        } else {
            None
        }
    }

    /// Approximate bounds: ten pixels per character, twenty high, above
    /// the anchor.
    pub fn bounds(&self) -> (r: Option<Rect>)
        requires
            self.anchor() matches Some(p) ==> p.y >= i32::MIN + 20,
            self.typed().len() * 10 <= usize::MAX,
        ensures
            match self.anchor() {
                Some(p) => r == Some(
                    Rect {
                        x: p.x,
                        y: (p.y - 20) as i32,
                        width: if ((self.typed().len() * 10) as u32) >= 1 {
                            (self.typed().len() * 10) as u32
                        } else {
                            1
                        },
                        height: 20,
                    },
                ),
                None => r is None,
            },
    {
        match self.position {
            Some(p) => {
                let width = (self.text.len() * 10) as u32;
                Some(
                    Rect {
                        x: p.x,
                        y: p.y - 20,
                        width: if width >= 1 {
                            width
                        } else {
                            1
                        },
                        height: 20,
                    },
                )
            },
            None => None,
        }
    }
}

/// While typing, a backspace right after a character takes it out again:
/// the text and the cursor are as before.
pub proof fn lemma_text_backspace_undoes_char(t0: TextTool, c: char, t1: TextTool, t2: TextTool)
    requires
        t0.is_typing(),
        t0.well_formed(),
        (t1.anchor(), t1.typed(), t1.is_typing(), t1.cursor(), true) == t0.after_key(KeyInput::Char(c)),
        (t2.anchor(), t2.typed(), t2.is_typing(), t2.cursor(), true) == t1.after_key(KeyInput::Backspace),
    ensures
        t2.typed() == t0.typed(),
        t2.cursor() == t0.cursor(),
        t2.anchor() == t0.anchor(),
        t2.is_typing(),
{
    assert(t0.typed().insert(t0.cursor() as int, c).remove(t0.cursor() as int) =~= t0.typed());
}

/// A drag's rectangle covers both of its ends.
pub proof fn lemma_drag_rect_covers_ends(a: Point, b: Point)
    requires
        span_fits(a, b),
    ensures
        rect_between(a, b).x <= a.x && a.x <= rect_between(a, b).x + rect_between(a, b).width,
        rect_between(a, b).x <= b.x && b.x <= rect_between(a, b).x + rect_between(a, b).width,
        rect_between(a, b).y <= a.y && a.y <= rect_between(a, b).y + rect_between(a, b).height,
        rect_between(a, b).y <= b.y && b.y <= rect_between(a, b).y + rect_between(a, b).height,
        rect_between(a, b) == rect_between(b, a),
{
}

} // verus!
