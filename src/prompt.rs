use crate::builder::{
    keeps_styles, lemma_keeps_bold_text, lemma_keeps_concat, lemma_keeps_empty, lemma_keeps_in_bg,
    lemma_keeps_in_fg, lemma_keeps_text, lemma_state_after_is_run, plain_state, state_after, OpView,
    PromptBuilder,
};
use crate::color::{accent_at, AccentColor, NamedColor};
use crate::theme::{strings_view, AccentWhich, PromptContents, PromptSegmentSeparators};
use vstd::prelude::*;

verus! {

/// The glyph that fills the space between the left and right sides of a row.
#[derive(Clone, Copy, Debug, PartialEq, Eq, Structural)]
pub enum PromptConnection {
    Space,
    Line,
    Double,
    Bold,
    Dashed,
    Dotted,
    Dot,
    Bullet,
    Wave,
    ZigZag,
    Bar,
    Gradient,
}

impl Default for PromptConnection {
    fn default() -> (r: Self)
        ensures
            r == PromptConnection::Space,
    {
        PromptConnection::Space
    }
}

/// The filler glyph of a connection style.
pub open spec fn connection_glyph(c: PromptConnection) -> Seq<char> {
    match c {
        PromptConnection::Space => " "@,
        PromptConnection::Line => "\u{2500}"@,
        PromptConnection::Double => "\u{2550}"@,
        PromptConnection::Bold => "\u{2501}"@,
        PromptConnection::Dashed => "\u{254c}"@,
        PromptConnection::Dotted => "\u{2504}"@,
        PromptConnection::Dot => "\u{b7}"@,
        PromptConnection::Bullet => "\u{2022}"@,
        PromptConnection::Wave => "~"@,
        PromptConnection::ZigZag => "\u{2248}"@,
        PromptConnection::Bar => "\u{2588}"@,
        PromptConnection::Gradient => "\u{2592}"@,
    }
}

impl PromptConnection {
    /// The filler glyph.
    pub fn glyph(&self) -> (r: &'static str)
        ensures
            r@ == connection_glyph(*self),
    {
        match self {
            PromptConnection::Space => " ",
            PromptConnection::Line => "\u{2500}",
            PromptConnection::Double => "\u{2550}",
            PromptConnection::Bold => "\u{2501}",
            PromptConnection::Dashed => "\u{254c}",
            PromptConnection::Dotted => "\u{2504}",
            PromptConnection::Dot => "\u{b7}",
            PromptConnection::Bullet => "\u{2022}",
            PromptConnection::Wave => "~",
            PromptConnection::ZigZag => "\u{2248}",
            PromptConnection::Bar => "\u{2588}",
            PromptConnection::Gradient => "\u{2592}",
        }
    }
}

/// The box-drawing glyphs that frame the rows: corners, the horizontal
/// line, the vertical line and the two branch glyphs of the middle rows.
pub struct CurveGlyphs {
    pub top_left: Seq<char>,
    pub top_right: Seq<char>,
    pub bottom_left: Seq<char>,
    pub bottom_right: Seq<char>,
    pub horizontal: Seq<char>,
    pub vertical: Seq<char>,
    pub cross_left: Seq<char>,
    pub cross_right: Seq<char>,
}

/// The frame glyphs that go with a connection style: double lines, heavy
/// lines, square light lines, or round corners around the filler glyph.
pub open spec fn curve_glyphs(c: PromptConnection) -> CurveGlyphs {
    match c {
        PromptConnection::Double => CurveGlyphs {
            top_left: "\u{2554}"@,
            top_right: "\u{2557}"@,
            bottom_left: "\u{255a}"@,
            bottom_right: "\u{255d}"@,
            horizontal: "\u{2550}"@,
            vertical: "\u{2551}"@,
            cross_left: "\u{2560}"@,
            cross_right: "\u{2563}"@,
        },
        PromptConnection::Bold | PromptConnection::Bar => CurveGlyphs {
            top_left: "\u{250f}"@,
            top_right: "\u{2513}"@,
            bottom_left: "\u{2517}"@,
            bottom_right: "\u{251b}"@,
            horizontal: "\u{2501}"@,
            vertical: "\u{2503}"@,
            cross_left: "\u{2523}"@,
            cross_right: "\u{252b}"@,
        },
        PromptConnection::Line | PromptConnection::Dashed | PromptConnection::Dotted => CurveGlyphs {
            top_left: "\u{250c}"@,
            top_right: "\u{2510}"@,
            bottom_left: "\u{2514}"@,
            bottom_right: "\u{2518}"@,
            horizontal: "\u{2500}"@,
            vertical: "\u{2502}"@,
            cross_left: "\u{251c}"@,
            cross_right: "\u{2524}"@,
        },
        _ => CurveGlyphs {
            top_left: "\u{256d}"@,
            top_right: "\u{256e}"@,
            bottom_left: "\u{2570}"@,
            bottom_right: "\u{256f}"@,
            horizontal: connection_glyph(c),
            vertical: "\u{2502}"@,
            cross_left: "\u{251c}"@,
            cross_right: "\u{2524}"@,
        },
    }
}

/// The frame glyphs of a row.
pub struct PromptCurveLine {
    pub top_left: String,
    pub top_right: String,
    pub bottom_left: String,
    pub bottom_right: String,
    pub horizontal: String,
    pub vertical: String,
    pub cross_left: String,
    pub cross_right: String,
}

impl View for PromptCurveLine {
    type V = CurveGlyphs;

    open spec fn view(&self) -> CurveGlyphs {
        CurveGlyphs {
            top_left: self.top_left@,
            top_right: self.top_right@,
            bottom_left: self.bottom_left@,
            bottom_right: self.bottom_right@,
            horizontal: self.horizontal@,
            vertical: self.vertical@,
            cross_left: self.cross_left@,
            cross_right: self.cross_right@,
        }
    }
}

fn curve_line(
    top_left: &str,
    top_right: &str,
    bottom_left: &str,
    bottom_right: &str,
    horizontal: &str,
    vertical: &str,
    cross_left: &str,
    cross_right: &str,
) -> (r: PromptCurveLine)
    ensures
        r@ == (CurveGlyphs {
            top_left: top_left@,
            top_right: top_right@,
            bottom_left: bottom_left@,
            bottom_right: bottom_right@,
            horizontal: horizontal@,
            vertical: vertical@,
            cross_left: cross_left@,
            cross_right: cross_right@,
        }),
{
    PromptCurveLine {
        top_left: String::from_str(top_left),
        top_right: String::from_str(top_right),
        bottom_left: String::from_str(bottom_left),
        bottom_right: String::from_str(bottom_right),
        horizontal: String::from_str(horizontal),
        vertical: String::from_str(vertical),
        cross_left: String::from_str(cross_left),
        cross_right: String::from_str(cross_right),
    }
}

impl PromptCurveLine {
    /// The frame glyphs that go with a connection style.
    pub fn from_connection(conn: PromptConnection) -> (r: Self)
        ensures
            r@ == curve_glyphs(conn),
    {
        match conn {
            PromptConnection::Double => curve_line(
                "\u{2554}",
                "\u{2557}",
                "\u{255a}",
                "\u{255d}",
                "\u{2550}",
                "\u{2551}",
                "\u{2560}",
                "\u{2563}",
            ),
            PromptConnection::Bold | PromptConnection::Bar => curve_line(
                "\u{250f}",
                "\u{2513}",
                "\u{2517}",
                "\u{251b}",
                "\u{2501}",
                "\u{2503}",
                "\u{2523}",
                "\u{252b}",
            ),
            PromptConnection::Line | PromptConnection::Dashed | PromptConnection::Dotted => curve_line(
                "\u{250c}",
                "\u{2510}",
                "\u{2514}",
                "\u{2518}",
                "\u{2500}",
                "\u{2502}",
                "\u{251c}",
                "\u{2524}",
            ),
            _ => curve_line(
                "\u{256d}",
                "\u{256e}",
                "\u{2570}",
                "\u{256f}",
                conn.glyph(),
                "\u{2502}",
                "\u{251c}",
                "\u{2524}",
            ),
        }
    }
}

impl Default for PromptCurveLine {
    /// Round corners with a light horizontal line.
    fn default() -> (r: Self)
        ensures
            r@ == (CurveGlyphs { horizontal: "\u{2500}"@, ..curve_glyphs(PromptConnection::Dot) }),
    {
        curve_line(
            "\u{256d}",
            "\u{256e}",
            "\u{2570}",
            "\u{256f}",
            "\u{2500}",
            "\u{2502}",
            "\u{251c}",
            "\u{2524}",
        )
    }
}

/// A separator shape.
#[derive(Clone, Copy, Debug, PartialEq, Eq, Structural)]
pub enum PromptSeparation {
    Block,
    Sharp,
    Slash,
    BackSlash,
    Round,
    Blur,
    Flame,
    Pixel,
    Wave,
    Lego,
}

impl Default for PromptSeparation {
    fn default() -> (r: Self)
        ensures
            r == PromptSeparation::Sharp,
    {
        PromptSeparation::Sharp
    }
}

/// The filled separator glyphs of a shape, for the left and the right side.
pub open spec fn sep_box_glyphs(s: PromptSeparation) -> (Seq<char>, Seq<char>) {
    match s {
        PromptSeparation::Block => (" "@, " "@),
        PromptSeparation::Sharp => ("\u{e0b0}"@, "\u{e0b2}"@),
        PromptSeparation::Slash => ("\u{e0bc}"@, "\u{e0ba}"@),
        PromptSeparation::BackSlash => ("\u{e0b8}"@, "\u{e0be}"@),
        PromptSeparation::Round => ("\u{e0b4}"@, "\u{e0b6}"@),
        PromptSeparation::Blur => ("\u{2593}\u{2592}\u{2591}"@, "\u{2591}\u{2592}\u{2593}"@),
        PromptSeparation::Flame => ("\u{e0c0}"@, "\u{e0c2}"@),
        PromptSeparation::Pixel => ("\u{e0c6}"@, "\u{e0c7}"@),
        PromptSeparation::Wave => ("\u{e0c8}"@, "\u{e0ca}"@),
        PromptSeparation::Lego => ("\u{e0b0}"@, "\u{e0b2}"@),
    }
}

/// The thin-line separator glyphs of a shape, for the left and the right side.
pub open spec fn sep_line_glyphs(s: PromptSeparation) -> (Seq<char>, Seq<char>) {
    match s {
        PromptSeparation::Block => ("|"@, "|"@),
        PromptSeparation::Sharp => ("\u{e0b1}"@, "\u{e0b3}"@),
        PromptSeparation::Slash => ("\u{2571}"@, "\u{2571}"@),
        PromptSeparation::BackSlash => ("\u{2572}"@, "\u{2572}"@),
        PromptSeparation::Round => ("\u{e0b5}"@, "\u{e0b7}"@),
        PromptSeparation::Blur => ("\u{2591}"@, "\u{2591}"@),
        PromptSeparation::Flame => ("\u{e0c1}"@, "\u{e0c3}"@),
        PromptSeparation::Pixel => ("\u{e0c4}"@, "\u{e0c5}"@),
        PromptSeparation::Wave => ("\u{e0c9}"@, "\u{e0cb}"@),
        PromptSeparation::Lego => ("\u{e0b1}"@, "\u{e0b3}"@),
    }
}

/// A pair of filled separator glyphs.
pub struct PromptSeparationBox {
    pub left: String,
    pub right: String,
}

/// A pair of thin-line separator glyphs.
pub struct PromptSeparationLine {
    pub left: String,
    pub right: String,
}

impl PromptSeparationBox {
    pub fn new(left: &str, right: &str) -> (r: Self)
        ensures
            r.left@ == left@,
            r.right@ == right@,
    {
        PromptSeparationBox { left: String::from_str(left), right: String::from_str(right) }
    }
}

impl PromptSeparationLine {
    pub fn new(left: &str, right: &str) -> (r: Self)
        ensures
            r.left@ == left@,
            r.right@ == right@,
    {
        PromptSeparationLine { left: String::from_str(left), right: String::from_str(right) }
    }
}

impl PromptSeparation {
    /// The filled glyphs of this shape.
    pub fn sep_box(&self) -> (r: PromptSeparationBox)
        ensures
            (r.left@, r.right@) == sep_box_glyphs(*self),
    {
        match self {
            PromptSeparation::Block => PromptSeparationBox::new(" ", " "),
            PromptSeparation::Sharp => PromptSeparationBox::new("\u{e0b0}", "\u{e0b2}"),
            PromptSeparation::Slash => PromptSeparationBox::new("\u{e0bc}", "\u{e0ba}"),
            PromptSeparation::BackSlash => PromptSeparationBox::new("\u{e0b8}", "\u{e0be}"),
            PromptSeparation::Round => PromptSeparationBox::new("\u{e0b4}", "\u{e0b6}"),
            PromptSeparation::Blur => PromptSeparationBox::new(
                "\u{2593}\u{2592}\u{2591}",
                "\u{2591}\u{2592}\u{2593}",
            ),
            PromptSeparation::Flame => PromptSeparationBox::new("\u{e0c0}", "\u{e0c2}"),
            PromptSeparation::Pixel => PromptSeparationBox::new("\u{e0c6}", "\u{e0c7}"),
            PromptSeparation::Wave => PromptSeparationBox::new("\u{e0c8}", "\u{e0ca}"),
            PromptSeparation::Lego => PromptSeparationBox::new("\u{e0b0}", "\u{e0b2}"),
        }
    }

    /// The thin-line glyphs of this shape.
    pub fn sep_line(&self) -> (r: PromptSeparationLine)
        ensures
            (r.left@, r.right@) == sep_line_glyphs(*self),
    {
        match self {
            PromptSeparation::Block => PromptSeparationLine::new("|", "|"),
            PromptSeparation::Sharp => PromptSeparationLine::new("\u{e0b1}", "\u{e0b3}"),
            PromptSeparation::Slash => PromptSeparationLine::new("\u{2571}", "\u{2571}"),
            PromptSeparation::BackSlash => PromptSeparationLine::new("\u{2572}", "\u{2572}"),
            PromptSeparation::Round => PromptSeparationLine::new("\u{e0b5}", "\u{e0b7}"),
            PromptSeparation::Blur => PromptSeparationLine::new("\u{2591}", "\u{2591}"),
            PromptSeparation::Flame => PromptSeparationLine::new("\u{e0c1}", "\u{e0c3}"),
            PromptSeparation::Pixel => PromptSeparationLine::new("\u{e0c4}", "\u{e0c5}"),
            PromptSeparation::Wave => PromptSeparationLine::new("\u{e0c9}", "\u{e0cb}"),
            PromptSeparation::Lego => PromptSeparationLine::new("\u{e0b1}", "\u{e0b3}"),
        }
    }
}

// ---------------------------------------------------------------- rows

/// A glyph, wrapped in bold on and off when the separators are bold.
pub open spec fn glyph_ops(bold: bool, t: Seq<char>) -> Seq<OpView> {
    if bold {
        seq![OpView::Bold, OpView::Text(t), OpView::EndBold]
    } else {
        seq![OpView::Text(t)]
    }
}

/// The separator count of one side: none for an empty side, else one more
/// than the number of its segments.
pub open spec fn side_separation(n: int) -> int {
    if n == 0 {
        0
    } else {
        n + 1
    }
}

/// `x` inside a foreground color.
pub open spec fn in_fg(c: NamedColor, x: Seq<OpView>) -> Seq<OpView> {
    seq![OpView::Fg(c)] + x + seq![OpView::EndFg]
}

/// `x` inside a background color.
pub open spec fn in_bg(c: NamedColor, x: Seq<OpView>) -> Seq<OpView> {
    seq![OpView::Bg(c)] + x + seq![OpView::EndBg]
}

/// A start cap of foreground mode in color `c`: the glyph in `c`, then the
/// glyph in the row background on `c`.
pub open spec fn fg_start_cap_ops(b: bool, g: Seq<char>, c: NamedColor, bg: NamedColor) -> Seq<OpView> {
    in_fg(c, glyph_ops(b, g)) + in_bg(c, in_fg(bg, glyph_ops(b, g)))
}

/// An end cap of foreground mode in color `e`: the glyph in the row
/// background on `e`, then the glyph in `e`.
pub open spec fn fg_end_cap_ops(b: bool, g: Seq<char>, e: NamedColor, bg: NamedColor) -> Seq<OpView> {
    in_bg(e, in_fg(bg, glyph_ops(b, g))) + in_fg(e, glyph_ops(b, g))
}

/// The operations of the left start cap, foreground mode.
pub open spec fn left_fg_start_cap(pc: PromptContents) -> Seq<OpView> {
    let seps = pc.left_segment_separators;
    if pc.left_cap_enabled {
        fg_start_cap_ops(
            seps.separator_bold,
            sep_box_glyphs(seps.start_separator).1,
            accent_at(pc.color.accent, 0, 1),
            pc.color.bg,
        )
    } else {
        Seq::empty()
    }
}

/// The operations of the left end cap in color `e`, foreground mode.
pub open spec fn left_fg_end_cap(pc: PromptContents, e: NamedColor) -> Seq<OpView> {
    let seps = pc.left_segment_separators;
    if pc.left_cap_enabled {
        fg_end_cap_ops(seps.separator_bold, sep_box_glyphs(seps.end_separator).0, e, pc.color.bg)
    } else {
        Seq::empty()
    }
}

/// Left segment `i` in foreground mode, followed by a thin separator in the
/// accent color at `(i + 1) / (total + 1)` unless it is the last one.
pub open spec fn left_fg_piece(pc: PromptContents, items: Seq<Seq<char>>, i: int, total: int) -> Seq<
    OpView,
> {
    let seps = pc.left_segment_separators;
    let head = in_bg(pc.color.bg, seq![OpView::Text(items[i])]);
    if i == items.len() - 1 {
        head
    } else {
        head + in_fg(
            accent_at(pc.color.accent, i + 1, total + 1),
            glyph_ops(seps.separator_bold, sep_line_glyphs(seps.mid_separator).0),
        )
    }
}

/// The first `k` left segments in foreground mode.
pub open spec fn left_fg_body(pc: PromptContents, items: Seq<Seq<char>>, total: int, k: int) -> Seq<
    OpView,
>
    decreases k,
{
    if k <= 0 {
        Seq::empty()
    } else {
        left_fg_body(pc, items, total, k - 1) + left_fg_piece(pc, items, k - 1, total)
    }
}

/// The left side in foreground mode: the accent colors the separators and
/// the segments sit on the row background.
pub open spec fn left_fg_ops(l: Seq<Seq<char>>, r: Seq<Seq<char>>, pc: PromptContents) -> Seq<
    OpView,
> {
    let ls = side_separation(l.len() as int);
    let ts = ls + side_separation(r.len() as int);
    left_fg_start_cap(pc) + left_fg_body(pc, l, ts, l.len() as int) + left_fg_end_cap(
        pc,
        accent_at(pc.color.accent, ls, ts + 1),
    )
}

/// The operations of the right start cap in color `c`, foreground mode.
pub open spec fn right_fg_start_cap(pc: PromptContents, c: NamedColor) -> Seq<OpView> {
    let seps = pc.right_segment_separators;
    if pc.right_cap_enabled {
        fg_start_cap_ops(seps.separator_bold, sep_box_glyphs(seps.start_separator).1, c, pc.color.bg)
    } else {
        Seq::empty()
    }
}

/// The operations of the right end cap in color `e`, foreground mode.
pub open spec fn right_fg_end_cap(pc: PromptContents, e: NamedColor) -> Seq<OpView> {
    let seps = pc.right_segment_separators;
    if pc.right_cap_enabled {
        fg_end_cap_ops(seps.separator_bold, sep_box_glyphs(seps.end_separator).0, e, pc.color.bg)
    } else {
        Seq::empty()
    }
}

/// Right segment `i` in foreground mode, followed by a thin separator in the
/// accent color at `(ls + i + 2) / (total + 1)` unless it is the last one.
pub open spec fn right_fg_piece(
    pc: PromptContents,
    items: Seq<Seq<char>>,
    i: int,
    ls: int,
    total: int,
) -> Seq<OpView> {
    let seps = pc.right_segment_separators;
    let mid = if i == items.len() - 1 {
        Seq::empty()
    } else {
        in_fg(
            accent_at(pc.color.accent, ls + i + 2, total + 1),
            glyph_ops(seps.separator_bold, sep_line_glyphs(seps.mid_separator).1),
        )
    };
    in_bg(pc.color.bg, seq![OpView::Text(items[i])] + mid)
}

/// The first `k` right segments in foreground mode.
pub open spec fn right_fg_body(
    pc: PromptContents,
    items: Seq<Seq<char>>,
    ls: int,
    total: int,
    k: int,
) -> Seq<OpView>
    decreases k,
{
    if k <= 0 {
        Seq::empty()
    } else {
        right_fg_body(pc, items, ls, total, k - 1) + right_fg_piece(pc, items, k - 1, ls, total)
    }
}

/// The right side in foreground mode; nothing when it has no segment.
pub open spec fn right_fg_ops(l: Seq<Seq<char>>, r: Seq<Seq<char>>, pc: PromptContents) -> Seq<
    OpView,
> {
    let ls = side_separation(l.len() as int);
    let rs = side_separation(r.len() as int);
    let ts = ls + rs;
    if r.len() == 0 {
        Seq::empty()
    } else {
        right_fg_start_cap(pc, accent_at(pc.color.accent, ts + 1 - rs, ts + 1)) + right_fg_body(
            pc,
            r,
            ls,
            ts,
            r.len() as int,
        ) + right_fg_end_cap(pc, accent_at(pc.color.accent, ts, ts + 1))
    }
}

/// A cap of background mode: one filled glyph in the accent color.
pub open spec fn bg_cap(seps: PromptSegmentSeparators, c: NamedColor, g: Seq<char>) -> Seq<OpView> {
    in_fg(c, glyph_ops(seps.separator_bold, g))
}

/// A segment of background mode on the accent color at `k / cl`, followed
/// by the end cap (if enabled) when it is the last one, else by a filled
/// separator from its color to the color at `(k + 1) / cl`.
pub open spec fn bg_piece(
    a: AccentColor,
    seps: PromptSegmentSeparators,
    cap: bool,
    text: Seq<char>,
    k: int,
    cl: int,
    last: bool,
) -> Seq<OpView> {
    let b = seps.separator_bold;
    let c = accent_at(a, k, cl);
    let head = in_bg(c, glyph_ops(b, text));
    if last {
        if cap {
            head + bg_cap(seps, c, sep_box_glyphs(seps.end_separator).0)
        } else {
            head
        }
    } else {
        head + in_fg(c, in_bg(accent_at(a, k + 1, cl), glyph_ops(b, sep_box_glyphs(seps.mid_separator).0)))
    }
}

/// The first `k` segments of a side in background mode, segment `i` taking
/// color index `i + offset`.
pub open spec fn bg_body(
    a: AccentColor,
    seps: PromptSegmentSeparators,
    cap: bool,
    items: Seq<Seq<char>>,
    offset: int,
    cl: int,
    k: int,
) -> Seq<OpView>
    decreases k,
{
    if k <= 0 {
        Seq::empty()
    } else {
        bg_body(a, seps, cap, items, offset, cl, k - 1) + bg_piece(
            a,
            seps,
            cap,
            items[k - 1],
            k - 1 + offset,
            cl,
            k - 1 == items.len() - 1,
        )
    }
}

/// The left side in background mode: left segment `i` sits on the accent
/// color at `i / (L + R)`, where `L` and `R` count the segments of the two
/// sides; nothing when the side is empty.
pub open spec fn left_bg_ops(l: Seq<Seq<char>>, r: Seq<Seq<char>>, pc: PromptContents) -> Seq<
    OpView,
> {
    let seps = pc.left_segment_separators;
    let a = pc.color.accent;
    if l.len() == 0 {
        Seq::empty()
    } else {
        let start = if pc.left_cap_enabled {
            bg_cap(seps, accent_at(a, 0, 1), sep_box_glyphs(seps.start_separator).1)
        } else {
            Seq::empty()
        };
        start + bg_body(a, seps, pc.left_cap_enabled, l, 0, (l.len() + r.len()) as int, l.len() as int)
    }
}

/// The right side in background mode: right segment `i` sits on the accent
/// color at `(L + i) / (L + R)`, continuing after the left side; nothing
/// when the side is empty.
pub open spec fn right_bg_ops(l: Seq<Seq<char>>, r: Seq<Seq<char>>, pc: PromptContents) -> Seq<
    OpView,
> {
    let seps = pc.right_segment_separators;
    let a = pc.color.accent;
    let cl = (l.len() + r.len()) as int;
    let off = l.len() as int;
    if r.len() == 0 {
        Seq::empty()
    } else {
        let start = if pc.right_cap_enabled {
            bg_cap(seps, accent_at(a, off, cl), sep_box_glyphs(seps.start_separator).1)
        } else {
            Seq::empty()
        };
        start + bg_body(a, seps, pc.right_cap_enabled, r, off, cl, r.len() as int)
    }
}

/// The left side of a row in the mode that the row selects.
pub open spec fn left_ops(l: Seq<Seq<char>>, r: Seq<Seq<char>>, pc: PromptContents) -> Seq<OpView> {
    match pc.accent_which {
        AccentWhich::ForeGround => left_fg_ops(l, r, pc),
        AccentWhich::BackGround => left_bg_ops(l, r, pc),
    }
}

/// The right side of a row in the mode that the row selects.
pub open spec fn right_ops(l: Seq<Seq<char>>, r: Seq<Seq<char>>, pc: PromptContents) -> Seq<
    OpView,
> {
    match pc.accent_which {
        AccentWhich::ForeGround => right_fg_ops(l, r, pc),
        AccentWhich::BackGround => right_bg_ops(l, r, pc),
    }
}

/// The evaluated segment texts of one row, left and right.
#[derive(Clone, Debug)]
pub struct Prompt {
    left: Vec<String>,
    right: Vec<String>,
}

fn glyph(b: PromptBuilder, bold: bool, t: &str) -> (r: PromptBuilder)
    ensures
        r@ == b@ + glyph_ops(bold, t@),
{
    if bold {
        let r = b.bold().text(t).end_bold();
        assert(r@ =~= b@ + glyph_ops(bold, t@));
        r
    } else {
        let r = b.text(t);
        assert(r@ =~= b@ + glyph_ops(bold, t@));
        r
    }
}

fn bg_cap_builder(seps: &PromptSegmentSeparators, c: NamedColor, g: &str) -> (r: PromptBuilder)
    ensures
        r@ == bg_cap(*seps, c, g@),
{
    let r = glyph(PromptBuilder::new().color(c), seps.separator_bold, g).end_color();
    assert(r@ =~= bg_cap(*seps, c, g@));
    r
}

fn bg_piece_builder(
    a: &AccentColor,
    seps: &PromptSegmentSeparators,
    cap: bool,
    text: &str,
    k: u64,
    cl: u64,
    last: bool,
) -> (r: PromptBuilder)
    requires
        k < u64::MAX,
    ensures
        r@ == bg_piece(*a, *seps, cap, text@, k as int, cl as int, last),
{
    let c = a.get(k, cl);
    let head = glyph(PromptBuilder::new().color_bg(c), seps.separator_bold, text).end_color_bg();
    assert(head@ =~= in_bg(c, glyph_ops(seps.separator_bold, text@)));
    if last {
        if cap {
            let g = seps.end_separator.sep_box();
            head.connect(bg_cap_builder(seps, c, g.left.as_str()))
        } else {
            head
        }
    } else {
        let next = a.get(k + 1, cl);
        let g = seps.mid_separator.sep_box();
        let r = glyph(head.color(c).color_bg(next), seps.separator_bold, g.left.as_str()).end_color_bg().end_color();
        assert(r@ =~= bg_piece(*a, *seps, cap, text@, k as int, cl as int, last));
        r
    }
}

fn bg_side(
    a: &AccentColor,
    seps: &PromptSegmentSeparators,
    cap: bool,
    items: &Vec<String>,
    offset: u64,
    cl: u64,
    start: PromptBuilder,
) -> (r: PromptBuilder)
    requires
        offset + items@.len() + 1 <= u64::MAX,
    ensures
        r@ == start@ + bg_body(*a, *seps, cap, strings_view(items@), offset as int, cl as int, items@.len() as int),
{
    let n = items.len();
    let mut b = start;
    let mut i: usize = 0;
    while i < n
        invariant
            n == items@.len(),
            i <= n,
            offset + n + 1 <= u64::MAX,
            b@ == start@ + bg_body(*a, *seps, cap, strings_view(items@), offset as int, cl as int, i as int),
        decreases n - i,
    {
        let piece = bg_piece_builder(a, seps, cap, items[i].as_str(), i as u64 + offset, cl, i == n - 1);
        b = b.connect(piece);
        assert(strings_view(items@)[i as int] == items@[i as int]@);
        assert(b@ =~= start@ + bg_body(*a, *seps, cap, strings_view(items@), offset as int, cl as int, i + 1));
        i = i + 1;
    }
    b
}

impl Prompt {
    /// The left segment texts.
    pub closed spec fn left_items(&self) -> Seq<Seq<char>> {
        strings_view(self.left@)
    }

    /// The right segment texts.
    pub closed spec fn right_items(&self) -> Seq<Seq<char>> {
        strings_view(self.right@)
    }

    /// Whether the separator arithmetic of the row fits in a machine word.
    pub open spec fn fits(&self) -> bool {
        self.left_items().len() + self.right_items().len() + 4 <= u64::MAX
    }

    /// Whether the separator arithmetic of the row fits in a machine word.
    pub fn check_fits(&self) -> (r: bool)
        ensures
            r == self.fits(),
    {
        self.left.len() as u128 + self.right.len() as u128 + 4 <= u64::MAX as u128
    }

    /// A row with no segment yet.
    pub fn new() -> (r: Self)
        ensures
            r.left_items() == Seq::<Seq<char>>::empty(),
            r.right_items() == Seq::<Seq<char>>::empty(),
    {
        let r = Prompt { left: Vec::new(), right: Vec::new() };
        assert(r.left_items() =~= Seq::<Seq<char>>::empty());
        assert(r.right_items() =~= Seq::<Seq<char>>::empty());
        r
    }

    /// Appends a segment text to the left side.
    pub fn add_left(&mut self, content: &str)
        ensures
            final(self).left_items() == old(self).left_items().push(content@),
            final(self).right_items() == old(self).right_items(),
    {
        self.left.push(String::from_str(content));
        assert(self.left_items() =~= old(self).left_items().push(content@));
    }

    /// Appends a segment text to the right side.
    pub fn add_right(&mut self, content: &str)
        ensures
            final(self).right_items() == old(self).right_items().push(content@),
            final(self).left_items() == old(self).left_items(),
    {
        self.right.push(String::from_str(content));
        assert(self.right_items() =~= old(self).right_items().push(content@));
    }

    fn left_separation(&self) -> (r: u64)
        requires
            self.fits(),
        ensures
            r == side_separation(self.left_items().len() as int),
    {
        if self.left.len() == 0 {
            0
        } else {
            self.left.len() as u64 + 1
        }
    }

    fn right_separation(&self) -> (r: u64)
        requires
            self.fits(),
        ensures
            r == side_separation(self.right_items().len() as int),
    {
        if self.right.len() == 0 {
            0
        } else {
            self.right.len() as u64 + 1
        }
    }

    fn total_separation(&self) -> (r: u64)
        requires
            self.fits(),
        ensures
            r == side_separation(self.left_items().len() as int) + side_separation(
                self.right_items().len() as int,
            ),
    {
        self.left_separation() + self.right_separation()
    }

    fn render_left_bg(&self, pc: &PromptContents) -> (r: PromptBuilder)
        requires
            self.fits(),
        ensures
            r@ == left_bg_ops(self.left_items(), self.right_items(), *pc),
    {
        if self.left.len() == 0 {
            return PromptBuilder::new();
        }
        let seps = &pc.left_segment_separators;
        let a = &pc.color.accent;
        let start = if pc.left_cap_enabled {
            let g = seps.start_separator.sep_box();
            bg_cap_builder(seps, a.get(0, 1), g.right.as_str())
        } else {
            PromptBuilder::new()
        };
        let cl = self.left.len() as u64 + self.right.len() as u64;
        bg_side(a, seps, pc.left_cap_enabled, &self.left, 0, cl, start)
    }

    /// The right side of a row in background mode.
    pub fn render_right_bg(&self, pc: &PromptContents) -> (r: PromptBuilder)
        requires
            self.fits(),
        ensures
            r@ == right_bg_ops(self.left_items(), self.right_items(), *pc),
    {
        if self.right.len() == 0 {
            return PromptBuilder::new();
        }
        let seps = &pc.right_segment_separators;
        let a = &pc.color.accent;
        let l = self.left.len() as u64;
        let cl = l + self.right.len() as u64;
        let start = if pc.right_cap_enabled {
            let g = seps.start_separator.sep_box();
            bg_cap_builder(seps, a.get(l, cl), g.right.as_str())
        } else {
            PromptBuilder::new()
        };
        bg_side(a, seps, pc.right_cap_enabled, &self.right, l, cl, start)
    }

    fn render_left_fg(&self, pc: &PromptContents) -> (r: PromptBuilder)
        requires
            self.fits(),
        ensures
            r@ == left_fg_ops(self.left_items(), self.right_items(), *pc),
    {
        let seps = &pc.left_segment_separators;
        let bold = seps.separator_bold;
        let a = &pc.color.accent;
        let bg = pc.color.bg;
        let ls = self.left_separation();
        let ts = self.total_separation();
        let start_cap = if pc.left_cap_enabled {
            let c = a.get(0, 1);
            let g = seps.start_separator.sep_box();
            let b1 = glyph(PromptBuilder::new().color(c), bold, g.right.as_str());
            let b2 = glyph(b1.end_color().color_bg(c).color(bg), bold, g.right.as_str());
            b2.end_color().end_color_bg()
        } else {
            PromptBuilder::new()
        };
        assert(start_cap@ =~= left_fg_start_cap(*pc));
        let e = a.get(ls, ts + 1);
        let end_cap = if pc.left_cap_enabled {
            let g = seps.end_separator.sep_box();
            let b1 = glyph(PromptBuilder::new().color_bg(e).color(bg), bold, g.left.as_str());
            let b2 = glyph(b1.end_color().end_color_bg().color(e), bold, g.left.as_str());
            b2.end_color()
        } else {
            PromptBuilder::new()
        };
        assert(end_cap@ =~= left_fg_end_cap(*pc, e));
        let ghost items = self.left_items();
        let n = self.left.len();
        let mut b = start_cap;
        let mut i: usize = 0;
        while i < n
            invariant
                n == items.len(),
                items == self.left_items(),
                items == strings_view(self.left@),
                i <= n,
                self.fits(),
                ts == side_separation(self.left_items().len() as int) + side_separation(
                    self.right_items().len() as int,
                ),
                bg == pc.color.bg,
                seps == &pc.left_segment_separators,
                a == &pc.color.accent,
                bold == seps.separator_bold,
                b@ == left_fg_start_cap(*pc) + left_fg_body(*pc, items, ts as int, i as int),
            decreases n - i,
        {
            assert(items[i as int] == self.left@[i as int]@);
            let mut piece = PromptBuilder::new().color_bg(bg).text(self.left[i].as_str()).end_color_bg();
            if i != n - 1 {
                let g = seps.mid_separator.sep_line();
                piece = glyph(piece.color(a.get(i as u64 + 1, ts + 1)), bold, g.left.as_str()).end_color();
            }
            assert(piece@ =~= left_fg_piece(*pc, items, i as int, ts as int));
            b = b.connect(piece);
            assert(b@ =~= left_fg_start_cap(*pc) + left_fg_body(*pc, items, ts as int, i + 1));
            i = i + 1;
        }
        b.connect(end_cap)
    }

    /// The right side of a row in foreground mode.
    pub fn render_right_fg(&self, pc: &PromptContents) -> (r: PromptBuilder)
        requires
            self.fits(),
        ensures
            r@ == right_fg_ops(self.left_items(), self.right_items(), *pc),
    {
        if self.right.len() == 0 {
            return PromptBuilder::new();
        }
        let seps = &pc.right_segment_separators;
        let bold = seps.separator_bold;
        let a = &pc.color.accent;
        let bg = pc.color.bg;
        let ls = self.left_separation();
        let rs = self.right_separation();
        let ts = self.total_separation();
        let sc = a.get(ts + 1 - rs, ts + 1);
        let start_cap = if pc.right_cap_enabled {
            let g = seps.start_separator.sep_box();
            let b1 = glyph(PromptBuilder::new().color(sc), bold, g.right.as_str());
            let b2 = glyph(b1.end_color().color_bg(sc).color(bg), bold, g.right.as_str());
            b2.end_color().end_color_bg()
        } else {
            PromptBuilder::new()
        };
        assert(start_cap@ =~= right_fg_start_cap(*pc, sc));
        let e = a.get(ts, ts + 1);
        let end_cap = if pc.right_cap_enabled {
            let g = seps.end_separator.sep_box();
            let b1 = glyph(PromptBuilder::new().color_bg(e).color(bg), bold, g.left.as_str());
            let b2 = glyph(b1.end_color().end_color_bg().color(e), bold, g.left.as_str());
            b2.end_color()
        } else {
            PromptBuilder::new()
        };
        assert(end_cap@ =~= right_fg_end_cap(*pc, e));
        let ghost items = self.right_items();
        let n = self.right.len();
        let mut b = start_cap;
        let mut i: usize = 0;
        while i < n
            invariant
                n == items.len(),
                items == strings_view(self.right@),
                i <= n,
                self.fits(),
                ls == side_separation(self.left_items().len() as int),
                ts == ls + side_separation(self.right_items().len() as int),
                bg == pc.color.bg,
                seps == &pc.right_segment_separators,
                a == &pc.color.accent,
                bold == seps.separator_bold,
                b@ == right_fg_start_cap(*pc, sc) + right_fg_body(*pc, items, ls as int, ts as int, i as int),
            decreases n - i,
        {
            assert(items[i as int] == self.right@[i as int]@);
            let mut piece = PromptBuilder::new().color_bg(bg).text(self.right[i].as_str());
            if i != n - 1 {
                let g = seps.mid_separator.sep_line();
                piece = glyph(piece.color(a.get(ls + i as u64 + 2, ts + 1)), bold, g.right.as_str()).end_color();
            }
            piece = piece.end_color_bg();
            assert(piece@ =~= right_fg_piece(*pc, items, i as int, ls as int, ts as int));
            b = b.connect(piece);
            assert(b@ =~= right_fg_start_cap(*pc, sc) + right_fg_body(*pc, items, ls as int, ts as int, i + 1));
            i = i + 1;
        }
        b.connect(end_cap)
    }

    /// The left side of a row, in the mode that the row selects.
    pub fn render_left(&self, pc: &PromptContents) -> (r: PromptBuilder)
        requires
            self.fits(),
        ensures
            r@ == left_ops(self.left_items(), self.right_items(), *pc),
    {
        match pc.accent_which {
            AccentWhich::ForeGround => self.render_left_fg(pc),
            AccentWhich::BackGround => self.render_left_bg(pc),
        }
    }

    /// The right side of a row, in the mode that the row selects.
    pub fn render_right(&self, pc: &PromptContents) -> (r: PromptBuilder)
        requires
            self.fits(),
        ensures
            r@ == right_ops(self.left_items(), self.right_items(), *pc),
    {
        match pc.accent_which {
            AccentWhich::ForeGround => self.render_right_fg(pc),
            AccentWhich::BackGround => self.render_right_bg(pc),
        }
    }
}

// ---------------------------------------------------------------- laws

proof fn lemma_keeps_glyph(b: bool, t: Seq<char>)
    ensures
        keeps_styles(glyph_ops(b, t)),
{
    lemma_keeps_text(t);
    lemma_keeps_bold_text(t);
}

proof fn lemma_keeps_wrapped(c: NamedColor, x: Seq<OpView>)
    requires
        keeps_styles(x),
    ensures
        keeps_styles(in_fg(c, x)),
        keeps_styles(in_bg(c, x)),
{
    lemma_keeps_in_fg(c, x);
    lemma_keeps_in_bg(c, x);
}

proof fn lemma_keeps_fg_caps(b: bool, g: Seq<char>, c: NamedColor, bg: NamedColor)
    ensures
        keeps_styles(fg_start_cap_ops(b, g, c, bg)),
        keeps_styles(fg_end_cap_ops(b, g, c, bg)),
{
    lemma_keeps_glyph(b, g);
    lemma_keeps_wrapped(c, glyph_ops(b, g));
    lemma_keeps_wrapped(bg, glyph_ops(b, g));
    lemma_keeps_wrapped(c, in_fg(bg, glyph_ops(b, g)));
    lemma_keeps_concat(in_fg(c, glyph_ops(b, g)), in_bg(c, in_fg(bg, glyph_ops(b, g))));
    lemma_keeps_concat(in_bg(c, in_fg(bg, glyph_ops(b, g))), in_fg(c, glyph_ops(b, g)));
}

proof fn lemma_keeps_left_fg_body(pc: PromptContents, items: Seq<Seq<char>>, total: int, k: int)
    ensures
        keeps_styles(left_fg_body(pc, items, total, k)),
    decreases k,
{
    if k <= 0 {
        lemma_keeps_empty();
    } else {
        lemma_keeps_left_fg_body(pc, items, total, k - 1);
        let i = k - 1;
        let seps = pc.left_segment_separators;
        let g = glyph_ops(seps.separator_bold, sep_line_glyphs(seps.mid_separator).0);
        lemma_keeps_text(items[i]);
        lemma_keeps_wrapped(pc.color.bg, seq![OpView::Text(items[i])]);
        lemma_keeps_glyph(seps.separator_bold, sep_line_glyphs(seps.mid_separator).0);
        lemma_keeps_wrapped(accent_at(pc.color.accent, i + 1, total + 1), g);
        lemma_keeps_concat(
            in_bg(pc.color.bg, seq![OpView::Text(items[i])]),
            in_fg(accent_at(pc.color.accent, i + 1, total + 1), g),
        );
        lemma_keeps_concat(left_fg_body(pc, items, total, k - 1), left_fg_piece(pc, items, i, total));
    }
}

proof fn lemma_keeps_right_fg_body(pc: PromptContents, items: Seq<Seq<char>>, ls: int, total: int, k: int)
    ensures
        keeps_styles(right_fg_body(pc, items, ls, total, k)),
    decreases k,
{
    if k <= 0 {
        lemma_keeps_empty();
    } else {
        lemma_keeps_right_fg_body(pc, items, ls, total, k - 1);
        let i = k - 1;
        let seps = pc.right_segment_separators;
        let g = glyph_ops(seps.separator_bold, sep_line_glyphs(seps.mid_separator).1);
        let text = seq![OpView::Text(items[i])];
        let mid = in_fg(accent_at(pc.color.accent, ls + i + 2, total + 1), g);
        lemma_keeps_text(items[i]);
        lemma_keeps_glyph(seps.separator_bold, sep_line_glyphs(seps.mid_separator).1);
        lemma_keeps_wrapped(accent_at(pc.color.accent, ls + i + 2, total + 1), g);
        lemma_keeps_concat(text, mid);
        assert(text + Seq::<OpView>::empty() =~= text);
        lemma_keeps_wrapped(pc.color.bg, text + mid);
        lemma_keeps_wrapped(pc.color.bg, text);
        lemma_keeps_concat(
            right_fg_body(pc, items, ls, total, k - 1),
            right_fg_piece(pc, items, i, ls, total),
        );
    }
}

proof fn lemma_keeps_bg_body(
    a: AccentColor,
    seps: PromptSegmentSeparators,
    cap: bool,
    items: Seq<Seq<char>>,
    offset: int,
    cl: int,
    k: int,
)
    ensures
        keeps_styles(bg_body(a, seps, cap, items, offset, cl, k)),
    decreases k,
{
    if k <= 0 {
        lemma_keeps_empty();
    } else {
        lemma_keeps_bg_body(a, seps, cap, items, offset, cl, k - 1);
        let i = k - 1;
        let b = seps.separator_bold;
        let c = accent_at(a, i + offset, cl);
        let head = in_bg(c, glyph_ops(b, items[i]));
        lemma_keeps_glyph(b, items[i]);
        lemma_keeps_wrapped(c, glyph_ops(b, items[i]));
        let eg = glyph_ops(b, sep_box_glyphs(seps.end_separator).0);
        lemma_keeps_glyph(b, sep_box_glyphs(seps.end_separator).0);
        lemma_keeps_wrapped(c, eg);
        lemma_keeps_concat(head, in_fg(c, eg));
        let mg = glyph_ops(b, sep_box_glyphs(seps.mid_separator).0);
        let next = accent_at(a, i + offset + 1, cl);
        lemma_keeps_glyph(b, sep_box_glyphs(seps.mid_separator).0);
        lemma_keeps_wrapped(next, mg);
        lemma_keeps_wrapped(c, in_bg(next, mg));
        lemma_keeps_concat(head, in_fg(c, in_bg(next, mg)));
        lemma_keeps_concat(
            bg_body(a, seps, cap, items, offset, cl, k - 1),
            bg_piece(a, seps, cap, items[i], i + offset, cl, i == items.len() - 1),
        );
    }
}

/// Each side of a row, in either mode, closes every color and bold that it
/// opens: the styles open around it are the same before and after it, so
/// nothing leaks into what follows; from no open style it leaves none open.
pub proof fn lemma_sides_close_styles(l: Seq<Seq<char>>, r: Seq<Seq<char>>, pc: PromptContents)
    ensures
        keeps_styles(left_ops(l, r, pc)),
        keeps_styles(right_ops(l, r, pc)),
        state_after(left_ops(l, r, pc)) == plain_state(),
        state_after(right_ops(l, r, pc)) == plain_state(),
{
    let a = pc.color.accent;
    let ls = side_separation(l.len() as int);
    let rs = side_separation(r.len() as int);
    let ts = ls + rs;
    // foreground mode
    let lseps = pc.left_segment_separators;
    let rseps = pc.right_segment_separators;
    lemma_keeps_fg_caps(lseps.separator_bold, sep_box_glyphs(lseps.start_separator).1, accent_at(a, 0, 1), pc.color.bg);
    lemma_keeps_fg_caps(lseps.separator_bold, sep_box_glyphs(lseps.end_separator).0, accent_at(a, ls, ts + 1), pc.color.bg);
    lemma_keeps_left_fg_body(pc, l, ts, l.len() as int);
    lemma_keeps_concat(left_fg_start_cap(pc), left_fg_body(pc, l, ts, l.len() as int));
    lemma_keeps_concat(
        left_fg_start_cap(pc) + left_fg_body(pc, l, ts, l.len() as int),
        left_fg_end_cap(pc, accent_at(a, ls, ts + 1)),
    );
    lemma_keeps_fg_caps(rseps.separator_bold, sep_box_glyphs(rseps.start_separator).1, accent_at(a, ts + 1 - rs, ts + 1), pc.color.bg);
    lemma_keeps_fg_caps(rseps.separator_bold, sep_box_glyphs(rseps.end_separator).0, accent_at(a, ts, ts + 1), pc.color.bg);
    lemma_keeps_right_fg_body(pc, r, ls, ts, r.len() as int);
    let rstart = right_fg_start_cap(pc, accent_at(a, ts + 1 - rs, ts + 1));
    lemma_keeps_concat(rstart, right_fg_body(pc, r, ls, ts, r.len() as int));
    lemma_keeps_concat(
        rstart + right_fg_body(pc, r, ls, ts, r.len() as int),
        right_fg_end_cap(pc, accent_at(a, ts, ts + 1)),
    );
    lemma_keeps_empty();
    // background mode
    let cl = (l.len() + r.len()) as int;
    lemma_keeps_glyph(lseps.separator_bold, sep_box_glyphs(lseps.start_separator).1);
    lemma_keeps_wrapped(accent_at(a, 0, 1), glyph_ops(lseps.separator_bold, sep_box_glyphs(lseps.start_separator).1));
    lemma_keeps_bg_body(a, lseps, pc.left_cap_enabled, l, 0, cl, l.len() as int);
    let lstart = if pc.left_cap_enabled {
        bg_cap(lseps, accent_at(a, 0, 1), sep_box_glyphs(lseps.start_separator).1)
    } else {
        Seq::empty()
    };
    lemma_keeps_concat(lstart, bg_body(a, lseps, pc.left_cap_enabled, l, 0, cl, l.len() as int));
    let off = l.len() as int;
    lemma_keeps_glyph(rseps.separator_bold, sep_box_glyphs(rseps.start_separator).1);
    lemma_keeps_wrapped(accent_at(a, off, cl), glyph_ops(rseps.separator_bold, sep_box_glyphs(rseps.start_separator).1));
    lemma_keeps_bg_body(a, rseps, pc.right_cap_enabled, r, off, cl, r.len() as int);
    let rbstart = if pc.right_cap_enabled {
        bg_cap(rseps, accent_at(a, off, cl), sep_box_glyphs(rseps.start_separator).1)
    } else {
        Seq::empty()
    };
    lemma_keeps_concat(rbstart, bg_body(a, rseps, pc.right_cap_enabled, r, off, cl, r.len() as int));
    lemma_state_after_is_run(left_ops(l, r, pc));
    lemma_state_after_is_run(right_ops(l, r, pc));
}

} // verus!
