use crate::color::{AccentColor, NamedColor};
use crate::prompt::{PromptConnection, PromptSeparation};
use vstd::prelude::*;

verus! {

/// Whether the accent progression colors the separators (foreground) or the
/// segment backgrounds.
#[derive(Clone, Copy, Debug, PartialEq, Eq, Structural)]
pub enum AccentWhich {
    ForeGround,
    BackGround,
}

impl Default for AccentWhich {
    fn default() -> (r: Self)
        ensures
            r == AccentWhich::ForeGround,
    {
        AccentWhich::ForeGround
    }
}

/// The colors of one row: background, foreground, primary and secondary
/// colors, and the accent source that varies along the row.
#[derive(Clone, Debug)]
pub struct PromptColorScheme {
    pub bg: NamedColor,
    pub fg: NamedColor,
    pub pc: NamedColor,
    pub sc: NamedColor,
    pub accent: AccentColor,
}

/// Whether a color scheme is the default one: black background, white
/// foreground, cyan primary, light black secondary, and a rainbow accent
/// starting at hue 0.
pub open spec fn is_default_scheme(s: PromptColorScheme) -> bool {
    &&& s.bg == NamedColor::Black
    &&& s.fg == NamedColor::White
    &&& s.pc == NamedColor::Cyan
    &&& s.sc == NamedColor::LightBlack
    &&& s.accent == AccentColor::Rainbow(0)
}

impl Default for PromptColorScheme {
    fn default() -> (r: Self)
        ensures
            is_default_scheme(r),
    {
        PromptColorScheme {
            bg: NamedColor::Black,
            fg: NamedColor::White,
            pc: NamedColor::Cyan,
            sc: NamedColor::LightBlack,
            accent: AccentColor::Rainbow(0),
        }
    }
}

/// The start, middle and end separator shapes of one side, and whether the
/// separator glyphs are bold.
#[derive(Clone, Copy, Debug, PartialEq, Eq, Structural)]
pub struct PromptSegmentSeparators {
    pub start_separator: PromptSeparation,
    pub mid_separator: PromptSeparation,
    pub end_separator: PromptSeparation,
    pub separator_bold: bool,
}

/// Sharp start, middle and end separators, not bold.
pub open spec fn default_separators() -> PromptSegmentSeparators {
    PromptSegmentSeparators {
        start_separator: PromptSeparation::Sharp,
        mid_separator: PromptSeparation::Sharp,
        end_separator: PromptSeparation::Sharp,
        separator_bold: false,
    }
}

impl Default for PromptSegmentSeparators {
    fn default() -> (r: Self)
        ensures
            r == default_separators(),
    {
        PromptSegmentSeparators {
            start_separator: PromptSeparation::Sharp,
            mid_separator: PromptSeparation::Sharp,
            end_separator: PromptSeparation::Sharp,
            separator_bold: false,
        }
    }
}

/// One segment: an external command given as its argument vector.
#[derive(Clone, Debug)]
pub struct PromptContent {
    shell: Vec<String>,
}

/// The characters of each string of a vector.
pub open spec fn strings_view(v: Seq<String>) -> Seq<Seq<char>> {
    v.map_values(|s: String| s@)
}

impl PromptContent {
    /// The argument vector as character sequences.
    pub closed spec fn argv(&self) -> Seq<Seq<char>> {
        strings_view(self.shell@)
    }

    /// A segment that runs `shell[0]` with the remaining arguments.
    pub fn new(shell: Vec<String>) -> (r: Self)
        ensures
            r.argv() == strings_view(shell@),
    {
        PromptContent { shell }
    }

    /// The argument vector.
    pub fn shell(&self) -> (r: &Vec<String>)
        ensures
            strings_view(r@) == self.argv(),
    {
        &self.shell
    }
}

/// One row of the prompt.
#[derive(Clone, Debug)]
pub struct PromptContents {
    pub left: Vec<PromptContent>,
    pub right: Vec<PromptContent>,
    pub color: PromptColorScheme,
    pub connection: PromptConnection,
    pub left_segment_separators: PromptSegmentSeparators,
    pub right_segment_separators: PromptSegmentSeparators,
    pub accent_which: AccentWhich,
    pub left_cap_enabled: bool,
    pub right_cap_enabled: bool,
}

fn zsh_command(script: &str) -> (r: PromptContent)
    ensures
        r.argv() == seq!["zsh"@, "-c"@, script@],
{
    let v = vec![String::from_str("zsh"), String::from_str("-c"), String::from_str(script)];
    let r = PromptContent::new(v);
    assert(strings_view(v@) =~= seq!["zsh"@, "-c"@, script@]);
    r
}

/// Whether a row is the built-in one: user and host on the left, the
/// working directory and the last exit status on the right, the default
/// colors, a blank filler, sharp non-bold separators, the accent on the
/// foreground and both caps enabled.
pub open spec fn is_default_row(r: PromptContents) -> bool {
    &&& r.left@.len() == 2
    &&& r.left@[0].argv() == seq!["zsh"@, "-c"@, "whoami"@]
    &&& r.left@[1].argv() == seq!["zsh"@, "-c"@, "hostname"@]
    &&& r.right@.len() == 2
    &&& r.right@[0].argv() == seq!["zsh"@, "-c"@, "echo ${PWD/#$HOME/\\~}"@]
    &&& r.right@[1].argv() == seq!["zsh"@, "-c"@, "echo $?"@]
    &&& is_default_scheme(r.color)
    &&& r.connection == PromptConnection::Space
    &&& r.left_segment_separators == default_separators()
    &&& r.right_segment_separators == default_separators()
    &&& r.accent_which == AccentWhich::ForeGround
    &&& r.left_cap_enabled
    &&& r.right_cap_enabled
}

impl Default for PromptContents {
    /// The built-in row: user and host on the left, the working directory
    /// and the last exit status on the right.
    fn default() -> (r: Self)
        ensures
            is_default_row(r),
    {
        let left = vec![zsh_command("whoami"), zsh_command("hostname")];
        let right = vec![zsh_command("echo ${PWD/#$HOME/\\~}"), zsh_command("echo $?")];
        PromptContents {
            left,
            right,
            color: PromptColorScheme::default(),
            connection: PromptConnection::default(),
            left_segment_separators: PromptSegmentSeparators::default(),
            right_segment_separators: PromptSegmentSeparators::default(),
            accent_which: AccentWhich::default(),
            left_cap_enabled: true,
            right_cap_enabled: true,
        }
    }
}

/// The whole theme: the rows in stacking order and the colors of the
/// transient prompt.
#[derive(Clone, Debug)]
pub struct PromptTheme {
    pub prompt_contents_list: Vec<PromptContents>,
    pub transient_color: PromptColorScheme,
}

impl Default for PromptTheme {
    /// One built-in row and the default colors.
    fn default() -> (r: Self)
        ensures
            r.prompt_contents_list@.len() == 1,
            is_default_row(r.prompt_contents_list@[0]),
            is_default_scheme(r.transient_color),
    {
        PromptTheme {
            prompt_contents_list: vec![PromptContents::default()],
            transient_color: PromptColorScheme::default(),
        }
    }
}

} // verus!
