use zsh_infinite::color::{AccentColor, NamedColor};
use zsh_infinite::layout::{fill_count, left_prompt, render_prompt, right_prompt, transient_prompt, PromptType};
use zsh_infinite::prompt::{Prompt, PromptConnection, PromptSeparation};
use zsh_infinite::theme::{
    AccentWhich, PromptColorScheme, PromptContents, PromptSegmentSeparators, PromptTheme,
};

fn plain_row() -> PromptContents {
    PromptContents {
        left: vec![],
        right: vec![],
        color: PromptColorScheme {
            bg: NamedColor::Black,
            fg: NamedColor::White,
            pc: NamedColor::Cyan,
            sc: NamedColor::LightBlack,
            accent: AccentColor::Single(NamedColor::Red),
        },
        connection: PromptConnection::Line,
        left_segment_separators: PromptSegmentSeparators::default(),
        right_segment_separators: PromptSegmentSeparators::default(),
        accent_which: AccentWhich::ForeGround,
        left_cap_enabled: false,
        right_cap_enabled: false,
    }
}

#[test]
fn fill_count_exact_fit_is_zero() {
    assert_eq!(fill_count(53, 30, 20, 3, 1), 0);
}

#[test]
fn fill_count_too_narrow_is_zero() {
    assert_eq!(fill_count(40, 30, 20, 3, 1), 0);
    assert_eq!(fill_count(0, 30, 20, 3, 1), 0);
}

#[test]
fn fill_count_truncates() {
    assert_eq!(fill_count(80, 30, 20, 3, 1), 27);
    assert_eq!(fill_count(81, 30, 20, 3, 2), 14);
    assert_eq!(fill_count(80, 30, 20, 3, 0), 0);
    assert_eq!(fill_count(usize::MAX, usize::MAX, usize::MAX, usize::MAX, 1), 0);
}

#[test]
fn single_row_exact_text() {
    let theme = PromptTheme { prompt_contents_list: vec![plain_row()], transient_color: PromptColorScheme::default() };
    let rows = vec![Prompt::from_segments(&vec![Some("a".to_string())], &vec![])];
    assert_eq!(
        left_prompt(&theme, &rows, 10),
        "%F{8}\u{2500}%f%K{0}a%k%F{6}\u{2500}\u{2500}\u{2500}\u{2500}\u{2500}\u{2500}\u{2500}\u{2500}%f%F{8}\u{2500}%f\n%F{8}\u{2500} %f"
    );
}

#[test]
fn narrow_terminal_gets_no_filler() {
    let theme = PromptTheme { prompt_contents_list: vec![plain_row()], transient_color: PromptColorScheme::default() };
    let rows = vec![Prompt::from_segments(&vec![Some("abcdef".to_string())], &vec![])];
    assert_eq!(
        left_prompt(&theme, &rows, 7),
        "%F{8}\u{2500}%f%K{0}abcdef%k%F{6}%f%F{8}\u{2500}%f\n%F{8}\u{2500} %f"
    );
}

#[test]
fn empty_theme_falls_back_to_two_lines() {
    let theme = PromptTheme { prompt_contents_list: vec![], transient_color: PromptColorScheme::default() };
    assert_eq!(left_prompt(&theme, &vec![], 80), "%F{8}\u{256d}  \u{256e}%f\n%F{8}\u{2570}  %f");
    assert_eq!(right_prompt(&theme), "%F{8} \u{256f}%f");
}

#[test]
fn rendering_twice_is_identical() {
    let theme = PromptTheme::default();
    let rows = vec![Prompt::from_segments(
        &vec![Some("user".to_string()), Some("host".to_string())],
        &vec![Some("~/src".to_string()), Some("0".to_string())],
    )];
    let first = left_prompt(&theme, &rows, 60);
    let second = left_prompt(&theme, &rows, 60);
    assert_eq!(first, second);
    assert_eq!(right_prompt(&theme), right_prompt(&theme));
}

#[test]
fn second_row_uses_branch_glyphs() {
    let mut row = plain_row();
    row.left_cap_enabled = true;
    row.right_cap_enabled = true;
    let theme = PromptTheme { prompt_contents_list: vec![row.clone(), row], transient_color: PromptColorScheme::default() };
    let out = left_prompt(&theme, &vec![], 6);
    let lines: Vec<&str> = out.split('\n').collect();
    assert_eq!(lines.len(), 3);
    assert!(lines[0].starts_with("%F{8}\u{250c}\u{2500}%f"));
    assert!(lines[1].starts_with("%F{8}\u{251c}\u{2500}%f"));
    assert!(lines[0].ends_with("\u{2500}\u{2510}%f"));
    assert!(lines[1].ends_with("\u{2500}\u{2524}%f"));
    assert_eq!(lines[2], "%F{8}\u{2514}\u{2500} %f");
}

#[test]
fn transient_prompt_colors() {
    let theme = PromptTheme::default();
    assert_eq!(transient_prompt(&theme, Some(0)), "%F{6}\u{276f} %f%f%k%b");
    assert_eq!(transient_prompt(&theme, Some(2)), "%F{1}\u{276f} %f%f%k%b");
    assert_eq!(transient_prompt(&theme, None), "%F{1}\u{276f} %f%f%k%b");
    assert_eq!(
        render_prompt(&theme, PromptType::Transient { exit_code: Some(0) }, &vec![], 80),
        "%F{6}\u{276f} %f%f%k%b"
    );
}

#[test]
fn background_mode_left_side() {
    let mut row = plain_row();
    row.accent_which = AccentWhich::BackGround;
    row.left_segment_separators.mid_separator = PromptSeparation::Block;
    let mut p = Prompt::new();
    p.add_left("x");
    p.add_left("y");
    let ops = p.render_left(&row);
    assert_eq!(ops.build(), "%K{1}x%k%F{1}%K{1} %k%f%K{1}y%k");
    assert_eq!(ops.visible_text(), "x y");
}

#[test]
fn foreground_mode_right_side_with_caps() {
    let mut row = plain_row();
    row.right_cap_enabled = true;
    row.right_segment_separators.start_separator = PromptSeparation::Block;
    row.right_segment_separators.end_separator = PromptSeparation::Block;
    row.right_segment_separators.mid_separator = PromptSeparation::Slash;
    let mut p = Prompt::new();
    p.add_right("r1");
    p.add_right("r2");
    let ops = p.render_right(&row);
    assert_eq!(
        ops.build(),
        "%F{1} %f%K{1}%F{0} %f%k%K{0}r1%F{1}\u{2571}%f%k%K{0}r2%k%K{1}%F{0} %f%k%F{1} %f"
    );
}

#[test]
fn background_progress_spans_both_sides() {
    let mut row = plain_row();
    row.accent_which = AccentWhich::BackGround;
    row.color.accent = AccentColor::Gradient(vec![((0, 0, 0), 0), ((255, 255, 255), 10000)]);
    let p = Prompt::from_segments(&vec![Some("a".to_string())], &vec![Some("b".to_string())]);
    assert_eq!(p.render_left(&row).build(), "%K{#000000}a%k");
    assert_eq!(p.render_right(&row).build(), "%K{#7F7F7F}b%k");
}
