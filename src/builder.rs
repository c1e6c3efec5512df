use crate::color::NamedColor;
use vstd::prelude::*;

verus! {

/// One styling operation of a prompt.
#[derive(Clone, Debug)]
pub enum BuilderOp {
    SetForeground(NamedColor),
    SetBackground(NamedColor),
    Literal(String),
    Bold,
    EndBold,
    EndForeground,
    EndBackground,
    ResetAll,
}

/// A styling operation as a mathematical value.
pub enum OpView {
    Fg(NamedColor),
    Bg(NamedColor),
    Text(Seq<char>),
    Bold,
    EndBold,
    EndFg,
    EndBg,
    Reset,
}

impl View for BuilderOp {
    type V = OpView;

    open spec fn view(&self) -> OpView {
        match self {
            BuilderOp::SetForeground(c) => OpView::Fg(*c),
            BuilderOp::SetBackground(c) => OpView::Bg(*c),
            BuilderOp::Literal(s) => OpView::Text(s@),
            BuilderOp::Bold => OpView::Bold,
            BuilderOp::EndBold => OpView::EndBold,
            BuilderOp::EndForeground => OpView::EndFg,
            BuilderOp::EndBackground => OpView::EndBg,
            BuilderOp::ResetAll => OpView::Reset,
        }
    }
}

/// The open styles while a sequence is written out: the stack of foreground
/// colors, the stack of background colors, and whether bold is on.
pub struct StyleState {
    pub fg: Seq<NamedColor>,
    pub bg: Seq<NamedColor>,
    pub bold: bool,
}

/// No style open.
pub open spec fn plain_state() -> StyleState {
    StyleState { fg: Seq::empty(), bg: Seq::empty(), bold: false }
}

/// Decimal digit or hexadecimal digit `n` (`0 <= n < 16`).
pub open spec fn hex_char(n: u8) -> char {
    "0123456789ABCDEF"@[n as int]
}

/// The decimal digits of a byte, without leading zeros.
pub open spec fn decimal(n: u8) -> Seq<char> {
    if n >= 100 {
        seq![hex_char(n / 100), hex_char((n / 10) % 10), hex_char(n % 10)]
    } else if n >= 10 {
        seq![hex_char(n / 10), hex_char(n % 10)]
    } else {
        seq![hex_char(n)]
    }
}

/// Two hexadecimal digits of a byte.
pub open spec fn hex_byte(n: u8) -> Seq<char> {
    seq![hex_char(n / 16), hex_char(n % 16)]
}

/// The palette index of one of the sixteen named colors.
pub open spec fn palette_index(c: NamedColor) -> u8 {
    match c {
        NamedColor::Black => 0,
        NamedColor::Red => 1,
        NamedColor::Green => 2,
        NamedColor::Yellow => 3,
        NamedColor::Blue => 4,
        NamedColor::Magenta => 5,
        NamedColor::Cyan => 6,
        NamedColor::White => 7,
        NamedColor::LightBlack => 8,
        NamedColor::LightRed => 9,
        NamedColor::LightGreen => 10,
        NamedColor::LightYellow => 11,
        NamedColor::LightBlue => 12,
        NamedColor::LightMagenta => 13,
        NamedColor::LightCyan => 14,
        NamedColor::LightWhite => 15,
        NamedColor::Code256(n) => n,
        NamedColor::FullColor(_, _, _) => 0,
    }
}

/// How a color is written inside `%F{..}` and `%K{..}`: a palette or
/// 256-color index in decimal, a direct color as `#RRGGBB`.
pub open spec fn color_code(c: NamedColor) -> Seq<char> {
    match c {
        NamedColor::FullColor(r, g, b) => seq!['#'] + hex_byte(r) + hex_byte(g) + hex_byte(b),
        _ => decimal(palette_index(c)),
    }
}

/// The escape that opens a foreground color.
pub open spec fn fg_open(c: NamedColor) -> Seq<char> {
    "%F{"@ + color_code(c) + "}"@
}

/// The escape that opens a background color.
pub open spec fn bg_open(c: NamedColor) -> Seq<char> {
    "%K{"@ + color_code(c) + "}"@
}

/// A stack with its top removed; an empty stack stays empty.
pub open spec fn pop_color(s: Seq<NamedColor>) -> Seq<NamedColor> {
    if s.len() > 0 {
        s.drop_last()
    } else {
        s
    }
}

/// The foreground escape that puts back the top of a stack, if any.
pub open spec fn reopen_fg(s: Seq<NamedColor>) -> Seq<char> {
    if s.len() > 0 {
        fg_open(s.last())
    } else {
        Seq::empty()
    }
}

/// The background escape that puts back the top of a stack, if any.
pub open spec fn reopen_bg(s: Seq<NamedColor>) -> Seq<char> {
    if s.len() > 0 {
        bg_open(s.last())
    } else {
        Seq::empty()
    }
}

/// The styles open after one operation.
pub open spec fn op_next(op: OpView, st: StyleState) -> StyleState {
    match op {
        OpView::Fg(c) => StyleState { fg: st.fg.push(c), ..st },
        OpView::Bg(c) => StyleState { bg: st.bg.push(c), ..st },
        OpView::Text(_) => st,
        OpView::Bold => StyleState { bold: true, ..st },
        OpView::EndBold => StyleState { bold: false, ..st },
        OpView::EndFg => StyleState { fg: pop_color(st.fg), ..st },
        OpView::EndBg => StyleState { bg: pop_color(st.bg), ..st },
        OpView::Reset => plain_state(),
    }
}

/// The text that one operation writes. Ending a color resets that color and
/// then puts back the color that was open before it.
pub open spec fn op_text(op: OpView, st: StyleState) -> Seq<char> {
    match op {
        OpView::Fg(c) => fg_open(c),
        OpView::Bg(c) => bg_open(c),
        OpView::Text(t) => t,
        OpView::Bold => "%B"@,
        OpView::EndBold => "%b"@,
        OpView::EndFg => "%f"@ + reopen_fg(pop_color(st.fg)),
        OpView::EndBg => "%k"@ + reopen_bg(pop_color(st.bg)),
        OpView::Reset => "%f%k%b"@,
    }
}

/// The styles open after a sequence of operations.
pub open spec fn state_after(ops: Seq<OpView>) -> StyleState
    decreases ops.len(),
{
    if ops.len() == 0 {
        plain_state()
    } else {
        op_next(ops.last(), state_after(ops.drop_last()))
    }
}

/// The text that a sequence of operations writes.
pub open spec fn render(ops: Seq<OpView>) -> Seq<char>
    decreases ops.len(),
{
    if ops.len() == 0 {
        Seq::empty()
    } else {
        render(ops.drop_last()) + op_text(ops.last(), state_after(ops.drop_last()))
    }
}

/// The visible text of a sequence: its literals, in order.
pub open spec fn visible(ops: Seq<OpView>) -> Seq<char>
    decreases ops.len(),
{
    if ops.len() == 0 {
        Seq::empty()
    } else {
        visible(ops.drop_last()) + match ops.last() {
            OpView::Text(t) => t,
            _ => Seq::empty(),
        }
    }
}

/// An append-only sequence of styling operations.
#[derive(Clone, Debug)]
pub struct PromptBuilder {
    ops: Vec<BuilderOp>,
}

impl View for PromptBuilder {
    type V = Seq<OpView>;

    closed spec fn view(&self) -> Seq<OpView> {
        self.ops@.map_values(|op: BuilderOp| op@)
    }
}

fn digit(n: u8) -> (r: &'static str)
    requires
        n < 16,
    ensures
        r@ == seq![hex_char(n)],
{
    let digits = "0123456789ABCDEF";
    proof {
        reveal_strlit("0123456789ABCDEF");
    }
    let r = digits.substring_char(n as usize, n as usize + 1);
    assert(r@ =~= seq![hex_char(n)]);
    r
}

pub(crate) fn push_decimal(out: &mut String, n: u8)
    ensures
        final(out)@ == old(out)@ + decimal(n),
{
    if n >= 100 {
        out.append(digit(n / 100));
        out.append(digit((n / 10) % 10));
        out.append(digit(n % 10));
    } else if n >= 10 {
        out.append(digit(n / 10));
        out.append(digit(n % 10));
    } else {
        out.append(digit(n));
    }
    assert(final(out)@ =~= old(out)@ + decimal(n));
}

pub(crate) fn push_hex_byte(out: &mut String, n: u8)
    ensures
        final(out)@ == old(out)@ + hex_byte(n),
{
    out.append(digit(n / 16));
    out.append(digit(n % 16));
    assert(final(out)@ =~= old(out)@ + hex_byte(n));
}

/// The palette index of a named color, or the index of a 256-color code.
pub fn palette_index_of(c: NamedColor) -> (r: u8)
    ensures
        r == palette_index(c),
{
    match c {
        NamedColor::Black => 0,
        NamedColor::Red => 1,
        NamedColor::Green => 2,
        NamedColor::Yellow => 3,
        NamedColor::Blue => 4,
        NamedColor::Magenta => 5,
        NamedColor::Cyan => 6,
        NamedColor::White => 7,
        NamedColor::LightBlack => 8,
        NamedColor::LightRed => 9,
        NamedColor::LightGreen => 10,
        NamedColor::LightYellow => 11,
        NamedColor::LightBlue => 12,
        NamedColor::LightMagenta => 13,
        NamedColor::LightCyan => 14,
        NamedColor::LightWhite => 15,
        NamedColor::Code256(n) => n,
        NamedColor::FullColor(_, _, _) => 0,
    }
}

fn push_color_code(out: &mut String, c: NamedColor)
    ensures
        final(out)@ == old(out)@ + color_code(c),
{
    match c {
        NamedColor::FullColor(r, g, b) => {
            out.append("#");
            proof {
                reveal_strlit("#");
            }
            push_hex_byte(out, r);
            push_hex_byte(out, g);
            push_hex_byte(out, b);
            assert(final(out)@ =~= old(out)@ + color_code(c));
        },
        _ => {
            push_decimal(out, palette_index_of(c));
        },
    }
}

fn push_fg_open(out: &mut String, c: NamedColor)
    ensures
        final(out)@ == old(out)@ + fg_open(c),
{
    out.append("%F{");
    push_color_code(out, c);
    out.append("}");
    assert(final(out)@ =~= old(out)@ + fg_open(c));
}

fn push_bg_open(out: &mut String, c: NamedColor)
    ensures
        final(out)@ == old(out)@ + bg_open(c),
{
    out.append("%K{");
    push_color_code(out, c);
    out.append("}");
    assert(final(out)@ =~= old(out)@ + bg_open(c));
}

impl PromptBuilder {
    /// An empty sequence.
    pub fn new() -> (r: Self)
        ensures
            r@ == Seq::<OpView>::empty(),
    {
        let r = PromptBuilder { ops: Vec::new() };
        assert(r@ =~= Seq::<OpView>::empty());
        r
    }

    /// Appends one operation.
    pub fn add_sequence(self, op: BuilderOp) -> (r: Self)
        ensures
            r@ == self@.push(op@),
    {
        let mut ops = self.ops;
        ops.push(op);
        let r = PromptBuilder { ops };
        assert(r@ =~= self@.push(op@));
        r
    }

    /// Opens a foreground color.
    pub fn color(self, c: NamedColor) -> (r: Self)
        ensures
            r@ == self@.push(OpView::Fg(c)),
    {
        self.add_sequence(BuilderOp::SetForeground(c))
    }

    /// Opens a background color.
    pub fn color_bg(self, c: NamedColor) -> (r: Self)
        ensures
            r@ == self@.push(OpView::Bg(c)),
    {
        self.add_sequence(BuilderOp::SetBackground(c))
    }

    /// Appends literal text.
    pub fn text(self, s: &str) -> (r: Self)
        ensures
            r@ == self@.push(OpView::Text(s@)),
    {
        self.add_sequence(BuilderOp::Literal(String::from_str(s)))
    }

    /// Turns bold on.
    pub fn bold(self) -> (r: Self)
        ensures
            r@ == self@.push(OpView::Bold),
    {
        self.add_sequence(BuilderOp::Bold)
    }

    /// Turns bold off.
    pub fn end_bold(self) -> (r: Self)
        ensures
            r@ == self@.push(OpView::EndBold),
    {
        self.add_sequence(BuilderOp::EndBold)
    }

    /// Closes the innermost foreground color.
    pub fn end_color(self) -> (r: Self)
        ensures
            r@ == self@.push(OpView::EndFg),
    {
        self.add_sequence(BuilderOp::EndForeground)
    }

    /// Closes the innermost background color.
    pub fn end_color_bg(self) -> (r: Self)
        ensures
            r@ == self@.push(OpView::EndBg),
    {
        self.add_sequence(BuilderOp::EndBackground)
    }

    /// Clears every open style.
    pub fn reset_styles(self) -> (r: Self)
        ensures
            r@ == self@.push(OpView::Reset),
    {
        self.add_sequence(BuilderOp::ResetAll)
    }

    /// Splices another sequence after this one.
    pub fn connect(self, other: PromptBuilder) -> (r: Self)
        ensures
            r@ == self@ + other@,
    {
        let mut ops = self.ops;
        let mut tail = other.ops;
        ops.append(&mut tail);
        let r = PromptBuilder { ops };
        assert(r@ =~= self@ + other@);
        r
    }

    /// Number of operations.
    pub fn op_count(&self) -> (r: usize)
        ensures
            r == self@.len(),
    {
        self.ops.len()
    }

    /// Writes the sequence out as prompt escapes.
    pub fn build(&self) -> (r: String)
        ensures
            r@ == render(self@),
    {
        let mut out = String::new();
        let mut fg: Vec<NamedColor> = Vec::new();
        let mut bg: Vec<NamedColor> = Vec::new();
        let mut bold = false;
        let n = self.ops.len();
        let mut i: usize = 0;
        assert(self@.take(0) =~= Seq::<OpView>::empty());
        while i < n
            invariant
                n == self@.len(),
                n == self.ops@.len(),
                i <= n,
                out@ == render(self@.take(i as int)),
                fg@ == state_after(self@.take(i as int)).fg,
                bg@ == state_after(self@.take(i as int)).bg,
                bold == state_after(self@.take(i as int)).bold,
            decreases n - i,
        {
            assert(self@.take(i + 1).drop_last() =~= self@.take(i as int));
            assert(self@.take(i + 1).last() == self.ops@[i as int]@);
            match &self.ops[i] {
                BuilderOp::SetForeground(c) => {
                    push_fg_open(&mut out, *c);
                    fg.push(*c);
                },
                BuilderOp::SetBackground(c) => {
                    push_bg_open(&mut out, *c);
                    bg.push(*c);
                },
                BuilderOp::Literal(s) => {
                    out.append(s.as_str());
                },
                BuilderOp::Bold => {
                    out.append("%B");
                    bold = true;
                },
                BuilderOp::EndBold => {
                    out.append("%b");
                    bold = false;
                },
                BuilderOp::EndForeground => {
                    out.append("%f");
                    fg.pop();
                    if fg.len() > 0 {
                        let top = fg[fg.len() - 1];
                        push_fg_open(&mut out, top);
                    }
                },
                BuilderOp::EndBackground => {
                    out.append("%k");
                    bg.pop();
                    if bg.len() > 0 {
                        let top = bg[bg.len() - 1];
                        push_bg_open(&mut out, top);
                    }
                },
                BuilderOp::ResetAll => {
                    out.append("%f%k%b");
                    fg = Vec::new();
                    bg = Vec::new();
                    bold = false;
                },
            }
            assert(out@ =~= render(self@.take(i + 1)));
            assert(fg@ =~= state_after(self@.take(i + 1)).fg);
            assert(bg@ =~= state_after(self@.take(i + 1)).bg);
            i = i + 1;
        }
        assert(self@.take(n as int) =~= self@);
        out
    }

    /// The visible text: the literals in order, without any escape.
    pub fn visible_text(&self) -> (r: String)
        ensures
            r@ == visible(self@),
    {
        let mut out = String::new();
        let n = self.ops.len();
        let mut i: usize = 0;
        assert(self@.take(0) =~= Seq::<OpView>::empty());
        while i < n
            invariant
                n == self@.len(),
                n == self.ops@.len(),
                i <= n,
                out@ == visible(self@.take(i as int)),
            decreases n - i,
        {
            assert(self@.take(i + 1).drop_last() =~= self@.take(i as int));
            assert(self@.take(i + 1).last() == self.ops@[i as int]@);
            match &self.ops[i] {
                BuilderOp::Literal(s) => {
                    out.append(s.as_str());
                },
                _ => {},
            }
            assert(out@ =~= visible(self@.take(i + 1)));
            i = i + 1;
        }
        assert(self@.take(n as int) =~= self@);
        out
    }
}

/// A foreground color opened around a literal and closed again writes the
/// color, the text, a reset of the foreground, and then the foreground that
/// was open before (if any), for every text, the empty one included. The open
/// styles afterwards are those from before.
pub proof fn lemma_fg_span_restores_ambient(pre: Seq<OpView>, c: NamedColor, t: Seq<char>)
    ensures
        render(pre + seq![OpView::Fg(c), OpView::Text(t), OpView::EndFg]) == render(pre) + fg_open(
            c,
        ) + t + "%f"@ + reopen_fg(state_after(pre).fg),
        state_after(pre + seq![OpView::Fg(c), OpView::Text(t), OpView::EndFg]) == state_after(pre),
{
    let s1 = pre.push(OpView::Fg(c));
    let s2 = s1.push(OpView::Text(t));
    let s3 = s2.push(OpView::EndFg);
    assert(s3 =~= pre + seq![OpView::Fg(c), OpView::Text(t), OpView::EndFg]);
    assert(s3.drop_last() =~= s2);
    assert(s2.drop_last() =~= s1);
    assert(s1.drop_last() =~= pre);
    let st = state_after(pre);
    assert(state_after(s1).fg == st.fg.push(c));
    assert(state_after(s2) == state_after(s1));
    assert(pop_color(st.fg.push(c)) =~= st.fg);
    assert(state_after(s3).fg =~= st.fg);
    assert(render(s1) == render(pre) + fg_open(c));
    assert(render(s2) == render(s1) + t);
    assert(render(s3) == render(s2) + op_text(OpView::EndFg, state_after(s2)));
    assert(render(s3) =~= render(pre) + fg_open(c) + t + "%f"@ + reopen_fg(st.fg));
}

/// The same as [`lemma_fg_span_restores_ambient`], for a background color.
pub proof fn lemma_bg_span_restores_ambient(pre: Seq<OpView>, c: NamedColor, t: Seq<char>)
    ensures
        render(pre + seq![OpView::Bg(c), OpView::Text(t), OpView::EndBg]) == render(pre) + bg_open(
            c,
        ) + t + "%k"@ + reopen_bg(state_after(pre).bg),
        state_after(pre + seq![OpView::Bg(c), OpView::Text(t), OpView::EndBg]) == state_after(pre),
{
    let s1 = pre.push(OpView::Bg(c));
    let s2 = s1.push(OpView::Text(t));
    let s3 = s2.push(OpView::EndBg);
    assert(s3 =~= pre + seq![OpView::Bg(c), OpView::Text(t), OpView::EndBg]);
    assert(s3.drop_last() =~= s2);
    assert(s2.drop_last() =~= s1);
    assert(s1.drop_last() =~= pre);
    let st = state_after(pre);
    assert(state_after(s1).bg == st.bg.push(c));
    assert(state_after(s2) == state_after(s1));
    assert(pop_color(st.bg.push(c)) =~= st.bg);
    assert(state_after(s3).bg =~= st.bg);
    assert(render(s1) == render(pre) + bg_open(c));
    assert(render(s2) == render(s1) + t);
    assert(render(s3) == render(s2) + op_text(OpView::EndBg, state_after(s2)));
    assert(render(s3) =~= render(pre) + bg_open(c) + t + "%k"@ + reopen_bg(st.bg));
}

/// The styles open after a sequence of operations that starts with `st` open.
pub open spec fn run_state(ops: Seq<OpView>, st: StyleState) -> StyleState
    decreases ops.len(),
{
    if ops.len() == 0 {
        st
    } else {
        op_next(ops.last(), run_state(ops.drop_last(), st))
    }
}

/// Whether a sequence closes every style it opens: started with any colors
/// open and bold off, it leaves exactly those styles open.
pub open spec fn keeps_styles(ops: Seq<OpView>) -> bool {
    forall|st: StyleState| !st.bold ==> #[trigger] run_state(ops, st) == st
}

/// Starting from no open style is the same as `state_after`.
pub proof fn lemma_state_after_is_run(ops: Seq<OpView>)
    ensures
        state_after(ops) == run_state(ops, plain_state()),
    decreases ops.len(),
{
    if ops.len() > 0 {
        lemma_state_after_is_run(ops.drop_last());
    }
}

/// Running two sequences one after the other.
pub proof fn lemma_run_concat(x: Seq<OpView>, y: Seq<OpView>, st: StyleState)
    ensures
        run_state(x + y, st) == run_state(y, run_state(x, st)),
    decreases y.len(),
{
    if y.len() == 0 {
        assert(x + y =~= x);
    } else {
        lemma_run_concat(x, y.drop_last(), st);
        assert((x + y).drop_last() =~= x + y.drop_last());
        assert((x + y).last() == y.last());
    }
}

/// Two sequences that each close what they open close what they open together.
pub proof fn lemma_keeps_concat(x: Seq<OpView>, y: Seq<OpView>)
    requires
        keeps_styles(x),
        keeps_styles(y),
    ensures
        keeps_styles(x + y),
{
    assert forall|st: StyleState| !st.bold implies #[trigger] run_state(x + y, st) == st by {
        lemma_run_concat(x, y, st);
    }
}

/// A literal opens nothing.
pub proof fn lemma_keeps_text(t: Seq<char>)
    ensures
        keeps_styles(seq![OpView::Text(t)]),
{
    assert forall|st: StyleState| !st.bold implies #[trigger] run_state(seq![OpView::Text(t)], st) == st by {
        lemma_run_single(OpView::Text(t), st);
    }
}

/// Bold on, a literal, bold off: closes what it opens.
pub proof fn lemma_keeps_bold_text(t: Seq<char>)
    ensures
        keeps_styles(seq![OpView::Bold, OpView::Text(t), OpView::EndBold]),
{
    let s = seq![OpView::Bold, OpView::Text(t), OpView::EndBold];
    reveal_with_fuel(run_state, 4);
    assert forall|st: StyleState| !st.bold implies #[trigger] run_state(s, st) == st by {
        assert(s.drop_last() =~= seq![OpView::Bold, OpView::Text(t)]);
        assert(s.drop_last().drop_last() =~= seq![OpView::Bold]);
        assert(s.drop_last().drop_last().drop_last() =~= Seq::<OpView>::empty());
    }
}

proof fn lemma_run_single(op: OpView, st: StyleState)
    ensures
        run_state(seq![op], st) == op_next(op, st),
{
    assert(seq![op].drop_last() =~= Seq::<OpView>::empty());
    assert(run_state(Seq::<OpView>::empty(), st) == st);
    assert(seq![op].last() == op);
}

/// A sequence that closes what it opens, inside a foreground color, closes
/// what it opens.
pub proof fn lemma_keeps_in_fg(c: NamedColor, x: Seq<OpView>)
    requires
        keeps_styles(x),
    ensures
        keeps_styles(seq![OpView::Fg(c)] + x + seq![OpView::EndFg]),
{
    assert forall|st: StyleState| !st.bold implies #[trigger] run_state(
        seq![OpView::Fg(c)] + x + seq![OpView::EndFg],
        st,
    ) == st by {
        let open = seq![OpView::Fg(c)];
        lemma_run_concat(open + x, seq![OpView::EndFg], st);
        lemma_run_concat(open, x, st);
        lemma_run_single(OpView::Fg(c), st);
        let st1 = op_next(OpView::Fg(c), st);
        assert(run_state(x, st1) == st1);
        lemma_run_single(OpView::EndFg, st1);
        assert(pop_color(st.fg.push(c)) =~= st.fg);
    }
}

/// A sequence that closes what it opens, inside a background color, closes
/// what it opens.
pub proof fn lemma_keeps_in_bg(c: NamedColor, x: Seq<OpView>)
    requires
        keeps_styles(x),
    ensures
        keeps_styles(seq![OpView::Bg(c)] + x + seq![OpView::EndBg]),
{
    assert forall|st: StyleState| !st.bold implies #[trigger] run_state(
        seq![OpView::Bg(c)] + x + seq![OpView::EndBg],
        st,
    ) == st by {
        let open = seq![OpView::Bg(c)];
        lemma_run_concat(open + x, seq![OpView::EndBg], st);
        lemma_run_concat(open, x, st);
        lemma_run_single(OpView::Bg(c), st);
        let st1 = op_next(OpView::Bg(c), st);
        assert(run_state(x, st1) == st1);
        lemma_run_single(OpView::EndBg, st1);
        assert(pop_color(st.bg.push(c)) =~= st.bg);
    }
}

/// The empty sequence opens nothing.
pub proof fn lemma_keeps_empty()
    ensures
        keeps_styles(Seq::<OpView>::empty()),
{
}

} // verus!
