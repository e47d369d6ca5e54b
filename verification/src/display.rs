//! What the status display shows. Producers never draw: they hand the
//! display task a [`DisplayCmd`], and the library turns each command into a
//! plan of drawing operations that the display driver carries out in order.
//!
//! The layout is portrait: two deck columns (deck 1 on the left, deck 2 on
//! the right) around a master column.

use vstd::prelude::*;

verus! {

/// A request to redraw part of the display.
#[derive(Clone, Copy, Debug, PartialEq, Eq, Structural)]
pub enum DisplayCmd {
    /// Volume of a deck: the 7-bit MIDI value, then the deck.
    DrawPot(u8, usize),
    /// The deck that the load control acts on.
    DrawSelectedDeck(u8),
    /// Playing (`true`) or paused, then the deck.
    DrawPlayState(bool, usize),
}

/// The monospace fonts in use, by cell size.
#[derive(Clone, Copy, Debug, PartialEq, Eq, Structural)]
pub enum Font {
    /// 10 x 20
    Title,
    /// 9 x 15, bold
    Medium,
    /// 6 x 10
    Small,
    /// 5 x 8
    Tiny,
}

/// How a text is placed relative to its point.
#[derive(Clone, Copy, Debug, PartialEq, Eq, Structural)]
pub enum TextAnchor {
    /// The point is the top-left corner of the first line.
    TopLeft,
    /// The point is on the baseline of the first line, centred horizontally.
    Center,
}

/// A rectangle by its top-left corner and its size in pixels.
#[derive(Clone, Copy, Debug, PartialEq, Eq, Structural)]
pub struct Rect {
    pub x: i32,
    pub y: i32,
    pub w: u32,
    pub h: u32,
}

/// One drawing operation, in the order the driver must carry them out.
#[derive(Clone, Copy, Debug)]
pub enum DrawOp {
    /// Every pixel off.
    Clear,
    /// Every pixel of the rectangle set to `on`.
    Fill { rect: Rect, on: bool },
    /// A one-pixel outline of the rectangle, pixels on.
    Outline { rect: Rect },
    /// A filled triangle, pixels on.
    Triangle { a: (i32, i32), b: (i32, i32), c: (i32, i32) },
    /// A text in the given font, pixels on.
    Text { text: &'static str, x: i32, y: i32, font: Font, anchor: TextAnchor },
    /// The 48 x 48 logo, centred on the point.
    Logo { cx: i32, cy: i32 },
    /// Send the frame buffer to the panel.
    Flush,
}

// Volume bar geometry
pub const VOLUME_BAR_TOP: i32 = 26;

pub const VOLUME_BAR_WIDTH: u32 = 10;

pub const VOLUME_BAR_HEIGHT: u32 = 76;

// Play/pause icon geometry
pub const ICON_TOP: i32 = 111;

pub const ICON_WIDTH: u32 = 12;

pub const ICON_HEIGHT: u32 = 15;

pub open spec fn rect(x: int, y: int, w: int, h: int) -> Rect {
    Rect { x: x as i32, y: y as i32, w: w as u32, h: h as u32 }
}

/// Lit height of the volume bar for a 7-bit value: the value scaled from
/// 0..127 to 0..76 pixels, rounded down, and never more than the bar.
pub open spec fn spec_bar_filled(data: u8) -> int {
    let scaled = data as int * VOLUME_BAR_HEIGHT as int / 127;
    if scaled < VOLUME_BAR_HEIGHT as int {
        scaled
    } else {
        VOLUME_BAR_HEIGHT as int
    }
}

/// Left edge of the volume bar of a deck.
pub open spec fn spec_bar_x(deck: usize) -> int {
    if deck == 0 {
        2
    } else {
        52
    }
}

/// Left edge of the play/pause icon of a deck.
pub open spec fn spec_icon_x(deck: usize) -> int {
    if deck == 0 {
        1
    } else {
        51
    }
}

/// Text that shows the selected deck: an arrow towards it.
pub open spec fn spec_deck_arrow(deck: u8) -> Seq<char> {
    if deck == 0 {
        "<<<"@
    } else {
        ">>>"@
    }
}

/// The plan that draws `cmd`, ending with a flush.
pub open spec fn spec_render(cmd: DisplayCmd) -> Seq<DrawOp> {
    match cmd {
        DisplayCmd::DrawPot(data, deck) => {
            let x = spec_bar_x(deck);
            let empty = VOLUME_BAR_HEIGHT as int - spec_bar_filled(data);
            seq![
                DrawOp::Fill { rect: rect(x, 26, 10, 76), on: true },
                DrawOp::Fill { rect: rect(x, 26, 10, empty), on: false },
                DrawOp::Flush,
            ]
        },
        DisplayCmd::DrawSelectedDeck(_) => seq![
            DrawOp::Fill { rect: rect(19, 85, 27, 15), on: false },
            DrawOp::Flush,
        ],
        DisplayCmd::DrawPlayState(playing, deck) => {
            let x = spec_icon_x(deck);
            let clear = DrawOp::Fill { rect: rect(x, 111, 12, 15), on: false };
            if playing {
                seq![
                    clear,
                    DrawOp::Fill { rect: rect(x, 111, 5, 15), on: true },
                    DrawOp::Fill { rect: rect(x + 7, 111, 5, 15), on: true },
                    DrawOp::Flush,
                ]
            } else {
                seq![
                    clear,
                    DrawOp::Triangle {
                        a: (x as i32, 111i32),
                        b: (x as i32, 125i32),
                        c: ((x + 11) as i32, 118i32),
                    },
                    DrawOp::Flush,
                ]
            }
        },
    }
}

/// The plan for `cmd`: what [`render`] returns. For the selected deck the
/// arrow text stands between the clear and the flush; it is described apart
/// because its text is a string.
pub open spec fn render_matches(cmd: DisplayCmd, plan: Seq<DrawOp>) -> bool {
    match cmd {
        DisplayCmd::DrawSelectedDeck(deck) => {
            &&& plan.len() == 3
            &&& plan[0] == spec_render(cmd)[0]
            &&& plan[1] matches DrawOp::Text { text, x, y, font, anchor }
                && text@ == spec_deck_arrow(deck) && x == 19 && y == 85 && font == Font::Medium
                && anchor == TextAnchor::TopLeft
            &&& plan[2] == spec_render(cmd)[1]
        },
        _ => plan == spec_render(cmd),
    }
}

/// Lit and dark heights of the volume bar for a 7-bit value.
pub fn volume_bar_fill(data: u8) -> (r: (u32, u32))
    ensures
        r.0 == spec_bar_filled(data),
        r.1 == VOLUME_BAR_HEIGHT - spec_bar_filled(data),
        r.0 + r.1 == VOLUME_BAR_HEIGHT,
        data <= 127 ==> r.0 * 127 <= data * 76 < (r.0 + 1) * 127,
        data >= 127 ==> r.0 == VOLUME_BAR_HEIGHT,
{
    proof {
        lemma_bar_scaling(data);
    }
    let filled = (data as u32 * VOLUME_BAR_HEIGHT / 127).min(VOLUME_BAR_HEIGHT);
    let empty = VOLUME_BAR_HEIGHT - filled;
    (filled, empty)
}

/// The arrow text for the selected deck.
pub fn deck_arrow(deck: u8) -> (s: &'static str)
    ensures
        s@ == spec_deck_arrow(deck),
{
    if deck == 0 {
        "<<<"
    } else {
        ">>>"
    }
}

/// Turns a display command into the plan that draws it.
pub fn render(cmd: DisplayCmd) -> (r: Vec<DrawOp>)
    ensures
        render_matches(cmd, r@),
{
    let mut ops: Vec<DrawOp> = Vec::new();
    match cmd {
        DisplayCmd::DrawPot(data, deck) => {
            let x: i32 = if deck == 0 { 2 } else { 52 };
            let (_filled, empty) = volume_bar_fill(data);
            ops.push(DrawOp::Fill {
                rect: Rect { x, y: VOLUME_BAR_TOP, w: VOLUME_BAR_WIDTH, h: VOLUME_BAR_HEIGHT },
                on: true,
            });
            ops.push(DrawOp::Fill {
                rect: Rect { x, y: VOLUME_BAR_TOP, w: VOLUME_BAR_WIDTH, h: empty },
                on: false,
            });
        },
        DisplayCmd::DrawSelectedDeck(deck) => {
            let s = deck_arrow(deck);
            ops.push(DrawOp::Fill { rect: Rect { x: 19, y: 85, w: 27, h: 15 }, on: false });
            ops.push(
                DrawOp::Text { text: s, x: 19, y: 85, font: Font::Medium, anchor: TextAnchor::TopLeft },
            );
        },
        DisplayCmd::DrawPlayState(playing, deck) => {
            let x: i32 = if deck == 0 { 1 } else { 51 };
            ops.push(DrawOp::Fill {
                rect: Rect { x, y: ICON_TOP, w: ICON_WIDTH, h: ICON_HEIGHT },
                on: false,
            });
            if playing {
                // Pause: two bars
                ops.push(DrawOp::Fill { rect: Rect { x, y: ICON_TOP, w: 5, h: 15 }, on: true });
                ops.push(
                    DrawOp::Fill { rect: Rect { x: x + 7, y: ICON_TOP, w: 5, h: 15 }, on: true },
                );
            } else {
                // Play: triangle
                ops.push(
                    DrawOp::Triangle {
                        a: (x, ICON_TOP),
                        b: (x, ICON_TOP + 14),
                        c: (x + 11, ICON_TOP + 7),
                    },
                );
            }
        },
    }
    ops.push(DrawOp::Flush);
    proof {
        match cmd {
            DisplayCmd::DrawSelectedDeck(_) => {},
            _ => {
                assert(ops@ =~= spec_render(cmd));
            },
        }
    }
    ops
}

/// A text operation with the given content and placement.
pub open spec fn is_text(op: DrawOp, s: Seq<char>, x: i32, y: i32, font: Font, anchor: TextAnchor) -> bool {
    op matches DrawOp::Text { text, x: tx, y: ty, font: tf, anchor: ta } && text@ == s && tx == x
        && ty == y && tf == font && ta == anchor
}

/// The frame of a column of the mixer layout: deck 1, master, deck 2.
pub open spec fn spec_column_frame(column: int) -> Rect {
    if column == 0 {
        rect(0, 24, 14, 80)
    } else if column == 1 {
        rect(25, 24, 14, 50)
    } else {
        rect(50, 24, 14, 80)
    }
}

/// The mixer layout: column titles and column frames on a cleared screen.
pub open spec fn mixer_layout_matches(plan: Seq<DrawOp>) -> bool {
    &&& plan.len() == 8
    &&& plan[0] == DrawOp::Clear
    &&& is_text(plan[1], "1"@, 2, 0, Font::Title, TextAnchor::TopLeft)
    &&& is_text(plan[2], "M"@, 27, 0, Font::Title, TextAnchor::TopLeft)
    &&& is_text(plan[3], "2"@, 52, 0, Font::Title, TextAnchor::TopLeft)
    &&& plan[4] == DrawOp::Outline { rect: spec_column_frame(0) }
    &&& plan[5] == DrawOp::Outline { rect: spec_column_frame(1) }
    &&& plan[6] == DrawOp::Outline { rect: spec_column_frame(2) }
    &&& plan[7] == DrawOp::Flush
}

/// The boot screen: the logo above the product name and the web address.
pub open spec fn splash_layout_matches(plan: Seq<DrawOp>) -> bool {
    &&& plan.len() == 6
    &&& plan[0] == DrawOp::Clear
    &&& plan[1] == DrawOp::Flush
    &&& plan[2] == DrawOp::Logo { cx: 32, cy: 32 }
    &&& is_text(plan[3], "RP2040\nMIDI mixer"@, 32, 80, Font::Small, TextAnchor::Center)
    &&& is_text(plan[4], "zapolab.com"@, 32, 115, Font::Tiny, TextAnchor::Center)
    &&& plan[5] == DrawOp::Flush
}

/// The plan of the mixer layout, drawn once when the display task starts.
pub fn mixer_layout() -> (r: Vec<DrawOp>)
    ensures
        mixer_layout_matches(r@),
{
    let mut ops: Vec<DrawOp> = Vec::new();
    ops.push(DrawOp::Clear);
    ops.push(DrawOp::Text { text: "1", x: 2, y: 0, font: Font::Title, anchor: TextAnchor::TopLeft });
    ops.push(DrawOp::Text { text: "M", x: 27, y: 0, font: Font::Title, anchor: TextAnchor::TopLeft });
    ops.push(DrawOp::Text { text: "2", x: 52, y: 0, font: Font::Title, anchor: TextAnchor::TopLeft });
    ops.push(DrawOp::Outline { rect: Rect { x: 0, y: 24, w: 14, h: 80 } });
    ops.push(DrawOp::Outline { rect: Rect { x: 25, y: 24, w: 14, h: 50 } });
    ops.push(DrawOp::Outline { rect: Rect { x: 50, y: 24, w: 14, h: 80 } });
    ops.push(DrawOp::Flush);
    ops
}

/// The plan of the boot screen.
pub fn splash_layout() -> (r: Vec<DrawOp>)
    ensures
        splash_layout_matches(r@),
{
    let mut ops: Vec<DrawOp> = Vec::new();
    ops.push(DrawOp::Clear);
    ops.push(DrawOp::Flush);
    ops.push(DrawOp::Logo { cx: 32, cy: 32 });
    ops.push(
        DrawOp::Text {
            text: "RP2040\nMIDI mixer",
            x: 32,
            y: 80,
            font: Font::Small,
            anchor: TextAnchor::Center,
        },
    );
    ops.push(
        DrawOp::Text { text: "zapolab.com", x: 32, y: 115, font: Font::Tiny, anchor: TextAnchor::Center },
    );
    ops.push(DrawOp::Flush);
    ops
}

/// Whether `inner` lies inside `outer`.
pub open spec fn rect_within(inner: Rect, outer: Rect) -> bool {
    &&& outer.x <= inner.x
    &&& outer.y <= inner.y
    &&& inner.x + inner.w <= outer.x + outer.w
    &&& inner.y + inner.h <= outer.y + outer.h
}

/// Whether `inner` lies strictly inside the one-pixel outline of `frame`.
pub open spec fn rect_inside_frame(inner: Rect, frame: Rect) -> bool {
    &&& frame.x < inner.x
    &&& frame.y < inner.y
    &&& inner.x + inner.w < frame.x + frame.w
    &&& inner.y + inner.h < frame.y + frame.h
}

/// Whether two rectangles share no pixel.
pub open spec fn rects_disjoint(a: Rect, b: Rect) -> bool {
    ||| a.x + a.w <= b.x
    ||| b.x + b.w <= a.x
    ||| a.y + a.h <= b.y
    ||| b.y + b.h <= a.y
}

/// Whether pixel `(x, y)` lies in `r`.
pub open spec fn in_rect(r: Rect, x: int, y: int) -> bool {
    r.x <= x < r.x + r.w && r.y <= y < r.y + r.h
}

pub open spec fn min3(a: i32, b: i32, c: i32) -> int {
    if a <= b && a <= c {
        a as int
    } else if b <= c {
        b as int
    } else {
        c as int
    }
}

pub open spec fn max3(a: i32, b: i32, c: i32) -> int {
    if a >= b && a >= c {
        a as int
    } else if b >= c {
        b as int
    } else {
        c as int
    }
}

/// Number of line breaks in a text.
pub open spec fn newlines(s: Seq<char>) -> nat
    decreases s.len(),
{
    if s.len() == 0 {
        0
    } else {
        newlines(s.drop_last()) + if s.last() == '\n' {
            1nat
        } else {
            0nat
        }
    }
}

/// The box that an operation drawn by shape (a triangle, a text placed by
/// its top-left corner, the logo) can light: the bounding box of a
/// triangle's corners; a cell of the font per character across and per line
/// down for a text; the logo's 48 x 48 square. A centred text has no box
/// here.
pub open spec fn shape_box(op: DrawOp) -> Option<(int, int, int, int)> {
    match op {
        DrawOp::Triangle { a, b, c } => {
            let x0 = min3(a.0, b.0, c.0);
            let y0 = min3(a.1, b.1, c.1);
            Some((x0, y0, max3(a.0, b.0, c.0) - x0 + 1, max3(a.1, b.1, c.1) - y0 + 1))
        },
        DrawOp::Text { text, x, y, font, anchor } => if anchor == TextAnchor::TopLeft {
            Some(
                (
                    x as int,
                    y as int,
                    text@.len() * font_cell(font).0,
                    (newlines(text@) + 1) * font_cell(font).1,
                ),
            )
        } else {
            None
        },
        DrawOp::Logo { cx, cy } => Some((cx - 24, cy - 24, 48, 48)),
        _ => None,
    }
}

pub open spec fn in_box(b: (int, int, int, int), x: int, y: int) -> bool {
    b.0 <= x < b.0 + b.2 && b.1 <= y < b.1 + b.3
}

pub open spec fn box_within(b: (int, int, int, int), r: Rect) -> bool {
    r.x <= b.0 && r.y <= b.1 && b.0 + b.2 <= r.x + r.w && b.1 + b.3 <= r.y + r.h
}

/// Whether everything an operation may light or clear lies inside `r`.
pub open spec fn op_within(op: DrawOp, r: Rect) -> bool {
    match op {
        DrawOp::Fill { rect, .. } => rect_within(rect, r),
        DrawOp::Outline { rect } => rect_within(rect, r),
        DrawOp::Flush => true,
        _ => match shape_box(op) {
            Some(b) => box_within(b, r),
            None => false,
        },
    }
}

/// The region of the display that a command redraws.
pub open spec fn cmd_region(cmd: DisplayCmd) -> Rect {
    match cmd {
        DisplayCmd::DrawPot(_, deck) => rect(spec_bar_x(deck), 26, 10, 76),
        DisplayCmd::DrawSelectedDeck(_) => rect(19, 85, 27, 15),
        DisplayCmd::DrawPlayState(_, deck) => rect(spec_icon_x(deck), 111, 12, 15),
    }
}

/// A frame: whether each pixel is on.
pub type Frame = spec_fn(int, int) -> bool;

/// Which pixels the shaped operations (triangles, texts, the logo) light:
/// the font glyphs and the triangle rasterisation. The pixel model below
/// holds for every such raster that keeps each shape inside its box.
pub open spec fn raster_in_boxes(raster: spec_fn(DrawOp, int, int) -> bool) -> bool {
    forall|op: DrawOp, x: int, y: int|
        #[trigger] raster(op, x, y) ==> match shape_box(op) {
            Some(b) => in_box(b, x, y),
            None => true,
        }
}

/// Whether pixel `(x, y)` is on the one-pixel outline of `r`.
pub open spec fn on_outline(r: Rect, x: int, y: int) -> bool {
    in_rect(r, x, y) && (x == r.x || x == r.x + r.w - 1 || y == r.y || y == r.y + r.h - 1)
}

/// Pixel `(x, y)` after `op` is carried out on `fb`. Fills set their
/// rectangle, outlines and shapes only light pixels, clearing turns every
/// pixel off, and a flush changes nothing in the frame.
pub open spec fn op_pixel(
    op: DrawOp,
    raster: spec_fn(DrawOp, int, int) -> bool,
    fb: Frame,
    x: int,
    y: int,
) -> bool {
    match op {
        DrawOp::Clear => false,
        DrawOp::Fill { rect, on } => if in_rect(rect, x, y) {
            on
        } else {
            fb(x, y)
        },
        DrawOp::Outline { rect } => fb(x, y) || on_outline(rect, x, y),
        DrawOp::Flush => fb(x, y),
        _ => fb(x, y) || raster(op, x, y),
    }
}

/// The frame after a plan is carried out on `fb`, in order.
pub open spec fn apply_plan(fb: Frame, plan: Seq<DrawOp>, raster: spec_fn(DrawOp, int, int) -> bool) -> Frame
    decreases plan.len(),
{
    if plan.len() == 0 {
        fb
    } else {
        let before = apply_plan(fb, plan.drop_last(), raster);
        |x: int, y: int| op_pixel(plan.last(), raster, before, x, y)
    }
}

/// A plan that first fills the whole of `region` and then draws only inside
/// it leaves every pixel outside `region` as it was, and sets every pixel
/// inside whatever the frame held before.
proof fn lemma_overwriting_plan(
    plan: Seq<DrawOp>,
    region: Rect,
    raster: spec_fn(DrawOp, int, int) -> bool,
    fb1: Frame,
    fb2: Frame,
    x: int,
    y: int,
)
    requires
        plan.len() >= 1,
        plan[0] matches DrawOp::Fill { rect, .. } && rect == region,
        forall|i: int| 1 <= i < plan.len() ==> op_within(#[trigger] plan[i], region),
        raster_in_boxes(raster),
    ensures
        !in_rect(region, x, y) ==> apply_plan(fb1, plan, raster)(x, y) == fb1(x, y),
        in_rect(region, x, y) ==> apply_plan(fb1, plan, raster)(x, y) == apply_plan(
            fb2,
            plan,
            raster,
        )(x, y),
    decreases plan.len(),
{
    let init = plan.drop_last();
    if plan.len() > 1 {
        assert forall|i: int| 1 <= i < init.len() implies op_within(#[trigger] init[i], region) by {
            assert(init[i] == plan[i]);
        }
        lemma_overwriting_plan(init, region, raster, fb1, fb2, x, y);
        let op = plan.last();
        assert(op_within(plan[plan.len() - 1], region));
        if !in_rect(region, x, y) {
            match shape_box(op) {
                Some(b) => {
                    if raster(op, x, y) {
                        assert(in_box(b, x, y));
                    }
                },
                None => {},
            }
        }
    } else {
        assert(apply_plan(fb1, init, raster) == fb1);
        assert(apply_plan(fb2, init, raster) == fb2);
    }
}

/// The lit part of the volume bar and the dark part add up to the whole bar;
/// the bar is dark at 0, full from 127 on, and never shrinks when the value
/// rises.
pub proof fn lemma_volume_bar(a: u8, b: u8)
    requires
        a <= b,
    ensures
        0 <= spec_bar_filled(a) <= VOLUME_BAR_HEIGHT,
        spec_bar_filled(a) <= spec_bar_filled(b),
        spec_bar_filled(0) == 0,
        b >= 127 ==> spec_bar_filled(b) == VOLUME_BAR_HEIGHT,
        a < 127 ==> spec_bar_filled(a) < VOLUME_BAR_HEIGHT,
{
    assert(a as int * 76 / 127 <= b as int * 76 / 127) by (nonlinear_arith)
        requires
            0 <= a <= b,
    ;
    assert(b >= 127 ==> b as int * 76 / 127 >= 76) by (nonlinear_arith);
    assert(a < 127 ==> a as int * 76 / 127 < 76) by (nonlinear_arith)
        requires
            0 <= a,
    ;
}

/// Every command keeps to its own region: its plan first fills the whole
/// region (clearing it, or for a volume bar lighting it), and all it draws
/// after that lies inside the region.
pub proof fn lemma_render_within_region(cmd: DisplayCmd, plan: Seq<DrawOp>)
    requires
        render_matches(cmd, plan),
    ensures
        plan.len() >= 2,
        plan[0] matches DrawOp::Fill { rect, .. } && rect == cmd_region(cmd),
        forall|i: int| 1 <= i < plan.len() ==> op_within(#[trigger] plan[i], cmd_region(cmd)),
{
    match cmd {
        DisplayCmd::DrawPot(data, _) => {
            lemma_volume_bar(data, data);
        },
        DisplayCmd::DrawSelectedDeck(deck) => {
            reveal_strlit("<<<");
            reveal_strlit(">>>");
            let t = spec_deck_arrow(deck);
            reveal_with_fuel(newlines, 4);
            assert(t.drop_last().drop_last().drop_last() =~= Seq::<char>::empty());
            assert(newlines(t) == 0);
            assert(op_within(plan[1], cmd_region(cmd)));
        },
        DisplayCmd::DrawPlayState(_, _) => {},
    }
}

/// Processing a command changes only the pixels of its region; every other
/// pixel (the titles and frames of the mixer layout among them) keeps its
/// value. Inside the region the result does not depend on what was there.
pub proof fn lemma_render_own_region(
    cmd: DisplayCmd,
    plan: Seq<DrawOp>,
    raster: spec_fn(DrawOp, int, int) -> bool,
    fb1: Frame,
    fb2: Frame,
    x: int,
    y: int,
)
    requires
        render_matches(cmd, plan),
        raster_in_boxes(raster),
    ensures
        !in_rect(cmd_region(cmd), x, y) ==> apply_plan(fb1, plan, raster)(x, y) == fb1(x, y),
        in_rect(cmd_region(cmd), x, y) ==> apply_plan(fb1, plan, raster)(x, y) == apply_plan(
            fb2,
            plan,
            raster,
        )(x, y),
{
    lemma_render_within_region(cmd, plan);
    lemma_overwriting_plan(plan, cmd_region(cmd), raster, fb1, fb2, x, y);
}

/// Last write wins: of two commands for the same region (the same kind of
/// command for the same deck), processing the first and then the second
/// leaves the frame that the second alone leaves. In particular processing a
/// command twice is the same as processing it once.
pub proof fn lemma_render_last_wins(
    c1: DisplayCmd,
    plan1: Seq<DrawOp>,
    c2: DisplayCmd,
    plan2: Seq<DrawOp>,
    raster: spec_fn(DrawOp, int, int) -> bool,
    fb: Frame,
    x: int,
    y: int,
)
    requires
        render_matches(c1, plan1),
        render_matches(c2, plan2),
        cmd_region(c1) == cmd_region(c2),
        raster_in_boxes(raster),
    ensures
        apply_plan(apply_plan(fb, plan1, raster), plan2, raster)(x, y) == apply_plan(
            fb,
            plan2,
            raster,
        )(x, y),
{
    let after1 = apply_plan(fb, plan1, raster);
    lemma_render_own_region(c2, plan2, raster, after1, fb, x, y);
    lemma_render_own_region(c1, plan1, raster, fb, fb, x, y);
    lemma_render_own_region(c2, plan2, raster, fb, fb, x, y);
}

/// Each deck's volume bar is redrawn inside its own column frame of the
/// mixer layout, and the two decks' bars, like their play icons, never share
/// a pixel.
pub proof fn lemma_volume_bar_in_frame(data: u8, deck: usize)
    ensures
        ({
            let plan = spec_render(DisplayCmd::DrawPot(data, deck));
            let frame = spec_column_frame(if deck == 0 { 0 } else { 2 });
            &&& plan[0] matches DrawOp::Fill { rect, .. } && rect_inside_frame(rect, frame)
            &&& plan[1] matches DrawOp::Fill { rect, .. } && rect_inside_frame(rect, frame)
        }),
        rects_disjoint(rect(spec_bar_x(0), 26, 10, 76), rect(spec_bar_x(1), 26, 10, 76)),
        rects_disjoint(rect(spec_icon_x(0), 111, 12, 15), rect(spec_icon_x(1), 111, 12, 15)),
{
    lemma_volume_bar(data, data);
}

/// Cell size of a font's glyphs, in pixels.
pub open spec fn font_cell(font: Font) -> (int, int) {
    match font {
        Font::Title => (10, 20),
        Font::Medium => (9, 15),
        Font::Small => (6, 10),
        Font::Tiny => (5, 8),
    }
}

/// The lit height of the bar is the value scaled from 0..=127 onto the 76
/// pixels of the bar, rounded down: `filled * 127 <= data * 76 <
/// (filled + 1) * 127`; from 127 on the bar is full.
pub proof fn lemma_bar_scaling(data: u8)
    ensures
        data <= 127 ==> spec_bar_filled(data) * 127 <= data * 76 < (spec_bar_filled(data) + 1)
            * 127,
        data >= 127 ==> spec_bar_filled(data) == 76,
        0 <= spec_bar_filled(data) <= 76,
{
    let q = data as int * 76 / 127;
    assert(q * 127 <= data * 76 < (q + 1) * 127) by (nonlinear_arith)
        requires
            q == data as int * 76 / 127,
            0 <= data,
    ;
    assert(data <= 127 ==> q <= 76) by (nonlinear_arith)
        requires
            q == data as int * 76 / 127,
            0 <= data,
    ;
    assert(data >= 127 ==> q >= 76) by (nonlinear_arith)
        requires
            q == data as int * 76 / 127,
    ;
}

/// The play/pause icon shows what the deck does: while it plays, the pause
/// sign (two 5 x 15 bars, 2 pixels apart); while it is paused, the play sign
/// (a triangle pointing right). The kind of icon depends on the flag alone;
/// the deck only moves it, to x = 1 for deck 0 and x = 51 otherwise.
pub proof fn lemma_play_icon_kind(playing: bool, deck: usize)
    ensures
        ({
            let plan = spec_render(DisplayCmd::DrawPlayState(playing, deck));
            let x: int = if deck == 0 { 1 } else { 51 };
            &&& plan[0] == DrawOp::Fill { rect: rect(x, 111, 12, 15), on: false }
            &&& playing ==> {
                &&& plan.len() == 4
                &&& plan[1] == DrawOp::Fill { rect: rect(x, 111, 5, 15), on: true }
                &&& plan[2] == DrawOp::Fill { rect: rect(x + 7, 111, 5, 15), on: true }
                &&& plan[3] == DrawOp::Flush
            }
            &&& !playing ==> {
                &&& plan.len() == 3
                &&& plan[1] == DrawOp::Triangle {
                    a: (x as i32, 111i32),
                    b: (x as i32, 125i32),
                    c: ((x + 11) as i32, 118i32),
                }
                &&& plan[2] == DrawOp::Flush
            }
        }),
{
}

/// The volume bar of a deck: the whole bar (x = 2 for deck 0, x = 52
/// otherwise, 10 x 76 from y = 26) is lit, then its top part, 76 minus the
/// lit height, is turned dark.
pub proof fn lemma_volume_bar_plan(data: u8, deck: usize)
    ensures
        ({
            let plan = spec_render(DisplayCmd::DrawPot(data, deck));
            let x: int = if deck == 0 { 2 } else { 52 };
            &&& plan.len() == 3
            &&& plan[0] == DrawOp::Fill { rect: rect(x, 26, 10, 76), on: true }
            &&& plan[1] == DrawOp::Fill { rect: rect(x, 26, 10, 76 - spec_bar_filled(data)), on: false }
            &&& plan[2] == DrawOp::Flush
        }),
{
}

/// The selected-deck arrow is three characters pointing towards the deck's
/// column: left for deck 0, right for any other deck.
pub proof fn lemma_deck_arrow_points(deck: u8)
    ensures
        spec_deck_arrow(deck).len() == 3,
        forall|i: int|
            0 <= i < 3 ==> #[trigger] spec_deck_arrow(deck)[i] == if deck == 0 {
                '<'
            } else {
                '>'
            },
{
    reveal_strlit("<<<");
    reveal_strlit(">>>");
}

} // verus!
