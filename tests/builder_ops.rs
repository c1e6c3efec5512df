use zsh_infinite::builder::{BuilderOp, PromptBuilder};
use zsh_infinite::color::NamedColor;

#[test]
fn foreground_span_closes_cleanly() {
    let b = PromptBuilder::new().color(NamedColor::Red).text("hi").end_color();
    assert_eq!(b.build(), "%F{1}hi%f");
}

#[test]
fn foreground_span_reapplies_ambient_color() {
    let b = PromptBuilder::new()
        .color(NamedColor::Blue)
        .connect(PromptBuilder::new().color(NamedColor::Red).text("x").end_color())
        .text("y")
        .end_color();
    assert_eq!(b.build(), "%F{4}%F{1}x%f%F{4}y%f");
}

#[test]
fn foreground_span_with_empty_text() {
    let b = PromptBuilder::new()
        .color(NamedColor::Code256(200))
        .color(NamedColor::Green)
        .text("")
        .end_color();
    assert_eq!(b.build(), "%F{200}%F{2}%f%F{200}");
}

#[test]
fn background_span_reapplies_ambient_color() {
    let b = PromptBuilder::new()
        .color_bg(NamedColor::FullColor(255, 0, 16))
        .color_bg(NamedColor::LightWhite)
        .text("z")
        .end_color_bg()
        .end_color_bg();
    assert_eq!(b.build(), "%K{#FF0010}%K{15}z%k%K{#FF0010}%k");
}

#[test]
fn bold_and_reset() {
    let b = PromptBuilder::new()
        .bold()
        .color(NamedColor::Yellow)
        .text("!")
        .end_bold()
        .reset_styles()
        .end_color();
    assert_eq!(b.build(), "%B%F{3}!%b%f%k%b%f");
}

#[test]
fn unbalanced_end_never_fails() {
    let b = PromptBuilder::new().end_color().end_color_bg().text("a");
    assert_eq!(b.build(), "%f%ka");
}

#[test]
fn visible_text_keeps_literals_only() {
    let b = PromptBuilder::new()
        .color(NamedColor::Red)
        .text("ab")
        .end_color()
        .add_sequence(BuilderOp::Literal("c".to_string()));
    assert_eq!(b.visible_text(), "abc");
    assert_eq!(b.op_count(), 4);
}

#[test]
fn color_codes() {
    let b = PromptBuilder::new()
        .color(NamedColor::Black)
        .color(NamedColor::LightCyan)
        .color(NamedColor::Code256(7))
        .color(NamedColor::FullColor(1, 171, 255));
    assert_eq!(b.build(), "%F{0}%F{14}%F{7}%F{#01ABFF}");
}
