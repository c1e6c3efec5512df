use crate::builder::{render, visible, OpView, PromptBuilder};
use crate::color::NamedColor;
use crate::prompt::{connection_glyph, curve_glyphs, left_ops, right_ops, Prompt, PromptConnection, PromptCurveLine};
use crate::theme::{PromptContents, PromptTheme};
use vstd::prelude::*;

verus! {

/// The display width in columns of a text, as the Unicode width tables give it.
pub uninterp spec fn str_display_width(s: Seq<char>) -> nat;

/// Relies on `unicode_width::UnicodeWidthStr::width`: the displayed width of
/// the text in columns, which depends on its characters alone and is zero
/// for the empty text.
#[verifier::external_body]
fn display_width(s: &str) -> (r: usize)
    ensures
        r == str_display_width(s@),
        s@.len() == 0 ==> r == 0,
{
    unicode_width::UnicodeWidthStr::width(s)
}

/// How many filler glyphs fit between the two sides of a row: the columns
/// left over once both sides and the decoration are placed, divided by the
/// glyph width and truncated; zero when nothing is left over or the glyph
/// has no width.
pub open spec fn fill_count_spec(
    terminal_width: int,
    left_width: int,
    right_width: int,
    side_decor_width: int,
    connector_width: int,
) -> int {
    if connector_width == 0 || terminal_width <= left_width + right_width + side_decor_width {
        0
    } else {
        (terminal_width - left_width - right_width - side_decor_width) / connector_width
    }
}

/// The number of filler glyphs of a row.
pub fn fill_count(
    terminal_width: usize,
    left_width: usize,
    right_width: usize,
    side_decor_width: usize,
    connector_width: usize,
) -> (r: usize)
    ensures
        r == fill_count_spec(
            terminal_width as int,
            left_width as int,
            right_width as int,
            side_decor_width as int,
            connector_width as int,
        ),
{
    let used: u128 = left_width as u128 + right_width as u128 + side_decor_width as u128;
    if connector_width == 0 || terminal_width as u128 <= used {
        0
    } else {
        let rest = (terminal_width as u128 - used) as usize;
        rest / connector_width
    }
}

/// `s` written `n` times.
pub open spec fn repeat(s: Seq<char>, n: nat) -> Seq<char>
    decreases n,
{
    if n == 0 {
        Seq::empty()
    } else {
        repeat(s, (n - 1) as nat) + s
    }
}

fn repeat_str(s: &str, n: usize) -> (r: String)
    ensures
        r@ == repeat(s@, n as nat),
{
    let mut out = String::new();
    let mut i: usize = 0;
    while i < n
        invariant
            i <= n,
            out@ == repeat(s@, i as nat),
        decreases n - i,
    {
        out.append(s);
        i = i + 1;
    }
    out
}

/// The display width of what a sequence of operations shows.
pub open spec fn ops_width(ops: Seq<OpView>) -> int {
    str_display_width(visible(ops)) as int
}

/// The width of the decoration beside the two sides: the enabled caps and
/// one filler glyph.
pub open spec fn side_decor_width(pc: PromptContents) -> int {
    let g = curve_glyphs(pc.connection);
    (if pc.left_cap_enabled {
        str_display_width(g.top_left) as int
    } else {
        0
    }) + (if pc.right_cap_enabled {
        str_display_width(g.top_right) as int
    } else {
        0
    }) + str_display_width(connection_glyph(pc.connection)) as int
}

/// The frame of row `i` before its left side: the left cap (the top corner
/// on the first row, a branch glyph below) and a horizontal glyph.
pub open spec fn row_head_ops(pc: PromptContents, i: int) -> Seq<OpView> {
    let g = curve_glyphs(pc.connection);
    let lcap = if pc.left_cap_enabled {
        seq![OpView::Text(if i == 0 { g.top_left } else { g.cross_left })]
    } else {
        Seq::empty()
    };
    seq![OpView::Fg(pc.color.sc)] + lcap + seq![OpView::Text(g.horizontal), OpView::EndFg]
}

/// The frame of row `i` after its right side: a horizontal glyph and the
/// right cap.
pub open spec fn row_tail_ops(pc: PromptContents, i: int) -> Seq<OpView> {
    let g = curve_glyphs(pc.connection);
    let rcap = if pc.right_cap_enabled {
        seq![OpView::Text(if i == 0 { g.top_right } else { g.cross_right })]
    } else {
        Seq::empty()
    };
    seq![OpView::Fg(pc.color.sc), OpView::Text(g.horizontal)] + rcap + seq![OpView::EndFg]
}

/// The filler between the two sides, in the primary color.
pub open spec fn filler_ops(pc: PromptContents, filler: Seq<char>) -> Seq<OpView> {
    seq![OpView::Fg(pc.color.pc), OpView::Text(filler), OpView::EndFg]
}

/// The number of filler glyphs of a row with sides `left` and `right` on a
/// terminal `tw` columns wide.
pub open spec fn row_fill(pc: PromptContents, left: Seq<OpView>, right: Seq<OpView>, tw: int) -> int {
    fill_count_spec(
        tw,
        ops_width(left),
        ops_width(right),
        side_decor_width(pc),
        str_display_width(connection_glyph(pc.connection)) as int,
    )
}

/// Row `i` of the prompt with left segment texts `l` and right segment texts
/// `r` on a terminal `tw` columns wide: frame, left side, filler, right side,
/// frame.
pub open spec fn row_ops(pc: PromptContents, i: int, l: Seq<Seq<char>>, r: Seq<Seq<char>>, tw: int) -> Seq<
    OpView,
> {
    let left = left_ops(l, r, pc);
    let right = right_ops(l, r, pc);
    let fill = row_fill(pc, left, right, tw);
    row_head_ops(pc, i) + left + filler_ops(pc, repeat(connection_glyph(pc.connection), fill as nat))
        + right + row_tail_ops(pc, i)
}

/// The left segment texts of row `i`; none for a row without evaluated texts.
pub open spec fn row_left(rows: Seq<Prompt>, i: int) -> Seq<Seq<char>> {
    if 0 <= i < rows.len() {
        rows[i].left_items()
    } else {
        Seq::empty()
    }
}

/// The right segment texts of row `i`; none for a row without evaluated texts.
pub open spec fn row_right(rows: Seq<Prompt>, i: int) -> Seq<Seq<char>> {
    if 0 <= i < rows.len() {
        rows[i].right_items()
    } else {
        Seq::empty()
    }
}

/// The first `k` rows, each followed by a line break.
pub open spec fn rows_text(list: Seq<PromptContents>, rows: Seq<Prompt>, tw: int, k: int) -> Seq<char>
    decreases k,
{
    if k <= 0 {
        Seq::empty()
    } else {
        rows_text(list, rows, tw, k - 1) + render(
            row_ops(list[k - 1], k - 1, row_left(rows, k - 1), row_right(rows, k - 1), tw),
        ) + "\n"@
    }
}

/// The line where the command is typed: the bottom corner (when the left
/// cap is enabled), one horizontal glyph and a space.
pub open spec fn input_line_ops(sc: NamedColor, conn: PromptConnection, left_cap: bool) -> Seq<OpView> {
    let g = curve_glyphs(conn);
    seq![OpView::Fg(sc)] + (if left_cap {
        seq![OpView::Text(g.bottom_left)]
    } else {
        Seq::empty()
    }) + seq![OpView::Text(g.horizontal), OpView::Text(" "@), OpView::EndFg]
}

/// The top line of the prompt of a theme without rows, drawn with the
/// built-in row's glyphs.
pub open spec fn fallback_top_ops() -> Seq<OpView> {
    let g = curve_glyphs(PromptConnection::Space);
    seq![
        OpView::Fg(NamedColor::LightBlack),
        OpView::Text(g.top_left),
        OpView::Text(g.horizontal),
        OpView::Text(g.horizontal),
        OpView::Text(g.top_right),
        OpView::EndFg,
    ]
}

/// The whole left prompt: every row on its own line, then the input line in
/// the last row's style. A theme without rows gets a two-line frame in the
/// built-in row's style and no width fitting.
pub open spec fn left_prompt_text(list: Seq<PromptContents>, rows: Seq<Prompt>, tw: int) -> Seq<char> {
    if list.len() == 0 {
        render(fallback_top_ops()) + "\n"@ + render(
            input_line_ops(NamedColor::LightBlack, PromptConnection::Space, true),
        )
    } else {
        let last = list.last();
        rows_text(list, rows, tw, list.len() as int) + render(
            input_line_ops(last.color.sc, last.connection, last.left_cap_enabled),
        )
    }
}

/// The right prompt: a horizontal glyph and the bottom-right corner (when
/// the right cap is enabled) in the last row's style.
pub open spec fn right_prompt_ops(sc: NamedColor, conn: PromptConnection, right_cap: bool) -> Seq<OpView> {
    let g = curve_glyphs(conn);
    seq![OpView::Fg(sc), OpView::Text(g.horizontal)] + (if right_cap {
        seq![OpView::Text(g.bottom_right)]
    } else {
        Seq::empty()
    }) + seq![OpView::EndFg]
}

/// The right prompt of a theme: in the last row's style, or the built-in
/// row's for a theme without rows.
pub open spec fn right_prompt_text(list: Seq<PromptContents>) -> Seq<char> {
    if list.len() == 0 {
        render(right_prompt_ops(NamedColor::LightBlack, PromptConnection::Space, true))
    } else {
        let last = list.last();
        render(right_prompt_ops(last.color.sc, last.connection, last.right_cap_enabled))
    }
}

/// The transient prompt marker in color `c`, followed by a reset of every style.
pub open spec fn transient_ops(c: NamedColor) -> Seq<OpView> {
    seq![OpView::Fg(c), OpView::Text("\u{276f} "@), OpView::EndFg, OpView::Reset]
}

/// The color of the transient prompt: the primary color after a command that
/// exited with status zero, red otherwise (also when the status is unknown).
pub open spec fn transient_color_of(primary: NamedColor, exit_code: Option<i32>) -> NamedColor {
    if exit_code == Some(0i32) {
        primary
    } else {
        NamedColor::Red
    }
}

fn compute_row_fill(pc: &PromptContents, left: &PromptBuilder, right: &PromptBuilder, tw: usize) -> (r: usize)
    ensures
        r == row_fill(*pc, left@, right@, tw as int),
{
    let curved = PromptCurveLine::from_connection(pc.connection);
    let left_text = left.visible_text();
    let right_text = right.visible_text();
    let left_width = display_width(left_text.as_str());
    let right_width = display_width(right_text.as_str());
    let conn_width = display_width(pc.connection.glyph());
    let mut side: u128 = 0;
    if pc.left_cap_enabled {
        side = side + display_width(curved.top_left.as_str()) as u128;
    }
    if pc.right_cap_enabled {
        side = side + display_width(curved.top_right.as_str()) as u128;
    }
    side = side + conn_width as u128;
    assert(side == side_decor_width(*pc));
    if side > usize::MAX as u128 {
        0
    } else {
        fill_count(tw, left_width, right_width, side as usize, conn_width)
    }
}

fn row_head(pc: &PromptContents, i: usize) -> (r: PromptBuilder)
    ensures
        r@ == row_head_ops(*pc, i as int),
{
    let curved = PromptCurveLine::from_connection(pc.connection);
    let mut b = PromptBuilder::new().color(pc.color.sc);
    if pc.left_cap_enabled {
        if i == 0 {
            b = b.text(curved.top_left.as_str());
        } else {
            b = b.text(curved.cross_left.as_str());
        }
    }
    let r = b.text(curved.horizontal.as_str()).end_color();
    assert(r@ =~= row_head_ops(*pc, i as int));
    r
}

fn row_tail(pc: &PromptContents, i: usize) -> (r: PromptBuilder)
    ensures
        r@ == row_tail_ops(*pc, i as int),
{
    let curved = PromptCurveLine::from_connection(pc.connection);
    let mut b = PromptBuilder::new().color(pc.color.sc).text(curved.horizontal.as_str());
    if pc.right_cap_enabled {
        if i == 0 {
            b = b.text(curved.top_right.as_str());
        } else {
            b = b.text(curved.cross_right.as_str());
        }
    }
    let r = b.end_color();
    assert(r@ =~= row_tail_ops(*pc, i as int));
    r
}

fn render_row(pc: &PromptContents, i: usize, p: &Prompt, tw: usize) -> (r: PromptBuilder)
    requires
        p.fits(),
    ensures
        r@ == row_ops(*pc, i as int, p.left_items(), p.right_items(), tw as int),
{
    let left = p.render_left(pc);
    let right = p.render_right(pc);
    let fill = compute_row_fill(pc, &left, &right, tw);
    let filler = repeat_str(pc.connection.glyph(), fill);
    let mid = PromptBuilder::new().color(pc.color.pc).text(filler.as_str()).end_color();
    assert(mid@ =~= filler_ops(*pc, filler@));
    let r = row_head(pc, i).connect(left).connect(mid).connect(right).connect(row_tail(pc, i));
    r
}

fn input_line(sc: NamedColor, conn: PromptConnection, left_cap: bool) -> (r: PromptBuilder)
    ensures
        r@ == input_line_ops(sc, conn, left_cap),
{
    let curved = PromptCurveLine::from_connection(conn);
    let mut b = PromptBuilder::new().color(sc);
    if left_cap {
        b = b.text(curved.bottom_left.as_str());
    }
    let r = b.text(curved.horizontal.as_str()).text(" ").end_color();
    assert(r@ =~= input_line_ops(sc, conn, left_cap));
    r
}

/// The left prompt of a theme on a terminal `terminal_width` columns wide,
/// row `i` showing the evaluated segment texts `rows[i]` (a row past the end
/// of `rows` shows no segment).
pub fn left_prompt(theme: &PromptTheme, rows: &Vec<Prompt>, terminal_width: usize) -> (r: String)
    requires
        forall|i: int| 0 <= i < rows@.len() ==> #[trigger] rows@[i].fits(),
    ensures
        r@ == left_prompt_text(theme.prompt_contents_list@, rows@, terminal_width as int),
{
    let list = &theme.prompt_contents_list;
    let n = list.len();
    if n == 0 {
        let curved = PromptCurveLine::from_connection(PromptConnection::Space);
        let top = PromptBuilder::new().color(NamedColor::LightBlack).text(curved.top_left.as_str()).text(
            curved.horizontal.as_str(),
        ).text(curved.horizontal.as_str()).text(curved.top_right.as_str()).end_color();
        assert(top@ =~= fallback_top_ops());
        let mut out = top.build();
        out.append("\n");
        let bottom = input_line(NamedColor::LightBlack, PromptConnection::Space, true);
        out.append(bottom.build().as_str());
        return out;
    }
    let empty = Prompt::new();
    let mut out = String::new();
    let mut i: usize = 0;
    while i < n
        invariant
            n == list@.len(),
            list == &theme.prompt_contents_list,
            i <= n,
            empty.left_items() == Seq::<Seq<char>>::empty(),
            empty.right_items() == Seq::<Seq<char>>::empty(),
            forall|k: int| 0 <= k < rows@.len() ==> #[trigger] rows@[k].fits(),
            out@ == rows_text(list@, rows@, terminal_width as int, i as int),
        decreases n - i,
    {
        let p = if i < rows.len() {
            &rows[i]
        } else {
            &empty
        };
        assert(p.left_items() == row_left(rows@, i as int));
        assert(p.right_items() == row_right(rows@, i as int));
        let row = render_row(&list[i], i, p, terminal_width);
        out.append(row.build().as_str());
        out.append("\n");
        i = i + 1;
    }
    let last = &list[n - 1];
    let bottom = input_line(last.color.sc, last.connection, last.left_cap_enabled);
    out.append(bottom.build().as_str());
    out
}

/// The right prompt of a theme.
pub fn right_prompt(theme: &PromptTheme) -> (r: String)
    ensures
        r@ == right_prompt_text(theme.prompt_contents_list@),
{
    let list = &theme.prompt_contents_list;
    let (sc, conn, cap) = if list.len() == 0 {
        (NamedColor::LightBlack, PromptConnection::Space, true)
    } else {
        let last = &list[list.len() - 1];
        (last.color.sc, last.connection, last.right_cap_enabled)
    };
    let curved = PromptCurveLine::from_connection(conn);
    let mut b = PromptBuilder::new().color(sc).text(curved.horizontal.as_str());
    if cap {
        b = b.text(curved.bottom_right.as_str());
    }
    b = b.end_color();
    assert(b@ =~= right_prompt_ops(sc, conn, cap));
    b.build()
}

/// The transient prompt shown after a command, colored by its exit status.
pub fn transient_prompt(theme: &PromptTheme, exit_code: Option<i32>) -> (r: String)
    ensures
        r@ == render(transient_ops(transient_color_of(theme.transient_color.pc, exit_code))),
{
    let color = match exit_code {
        Some(0) => theme.transient_color.pc,
        _ => NamedColor::Red,
    };
    let b = PromptBuilder::new().color(color).text("\u{276f} ").end_color().reset_styles();
    assert(b@ =~= transient_ops(transient_color_of(theme.transient_color.pc, exit_code)));
    b.build()
}

/// Which prompt to draw.
#[derive(Clone, Copy, Debug, PartialEq, Eq, Structural)]
pub enum PromptType {
    /// The multi-row left prompt.
    Left,
    /// The right prompt.
    Right,
    /// The one-shot prompt shown after a command, colored by its exit status.
    Transient { exit_code: Option<i32> },
}

/// The text of the prompt that `kind` selects.
pub open spec fn prompt_text(
    list: Seq<PromptContents>,
    transient_pc: NamedColor,
    kind: PromptType,
    rows: Seq<Prompt>,
    tw: int,
) -> Seq<char> {
    match kind {
        PromptType::Left => left_prompt_text(list, rows, tw),
        PromptType::Right => right_prompt_text(list),
        PromptType::Transient { exit_code } => render(
            transient_ops(transient_color_of(transient_pc, exit_code)),
        ),
    }
}

/// Draws the prompt that `kind` selects for a theme, with the evaluated
/// segment texts of each row and the terminal width (used by the left
/// prompt only).
pub fn render_prompt(
    theme: &PromptTheme,
    kind: PromptType,
    rows: &Vec<Prompt>,
    terminal_width: usize,
) -> (r: String)
    requires
        forall|i: int| 0 <= i < rows@.len() ==> #[trigger] rows@[i].fits(),
    ensures
        r@ == prompt_text(
            theme.prompt_contents_list@,
            theme.transient_color.pc,
            kind,
            rows@,
            terminal_width as int,
        ),
{
    match kind {
        PromptType::Left => left_prompt(theme, rows, terminal_width),
        PromptType::Right => right_prompt(theme),
        PromptType::Transient { exit_code } => transient_prompt(theme, exit_code),
    }
}

// ---------------------------------------------------------------- laws

/// When the terminal is exactly as wide as both sides and the decoration
/// together, or narrower, no filler glyph is placed.
pub proof fn lemma_no_fill_without_room(
    terminal_width: int,
    left_width: int,
    right_width: int,
    side_decor_width: int,
    connector_width: int,
)
    requires
        terminal_width <= left_width + right_width + side_decor_width,
    ensures
        fill_count_spec(terminal_width, left_width, right_width, side_decor_width, connector_width)
            == 0,
{
}

/// The filler count is never negative, and the filler never takes more
/// columns than are left over beside the two sides and the decoration.
pub proof fn lemma_fill_fits(
    terminal_width: int,
    left_width: int,
    right_width: int,
    side_decor_width: int,
    connector_width: int,
)
    requires
        0 <= left_width,
        0 <= right_width,
        0 <= side_decor_width,
        0 <= connector_width,
    ensures
        0 <= fill_count_spec(terminal_width, left_width, right_width, side_decor_width, connector_width),
        left_width + right_width + side_decor_width + connector_width * fill_count_spec(
            terminal_width,
            left_width,
            right_width,
            side_decor_width,
            connector_width,
        ) <= terminal_width || fill_count_spec(
            terminal_width,
            left_width,
            right_width,
            side_decor_width,
            connector_width,
        ) == 0,
{
    let rest = terminal_width - left_width - right_width - side_decor_width;
    if connector_width > 0 && rest > 0 {
        vstd::arithmetic::div_mod::lemma_fundamental_div_mod(rest, connector_width);
        vstd::arithmetic::div_mod::lemma_mod_pos_bound(rest, connector_width);
        let q = rest / connector_width;
        assert(0 <= q) by {
            vstd::arithmetic::div_mod::lemma_div_pos_is_pos(rest, connector_width);
        }
    }
}

/// Rendering depends on the theme, the evaluated segment texts and the
/// terminal width alone: two renderings of the left prompt from the same
/// inputs give the same text.
pub proof fn lemma_rendering_idempotent(
    list: Seq<PromptContents>,
    rows: Seq<Prompt>,
    tw: int,
    first: Seq<char>,
    second: Seq<char>,
)
    requires
        first == left_prompt_text(list, rows, tw),
        second == left_prompt_text(list, rows, tw),
    ensures
        first == second,
{
}

} // verus!
