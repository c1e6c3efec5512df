use crate::builder::{decimal, hex_byte, hex_char, push_decimal, push_hex_byte};
use crate::color::NamedColor;
use crate::text::{
    all_digits, ascii_fold, digits_value, eq_ignore_ascii_case, is_digit, is_white_space, parse_u8,
    lemma_split_nonempty, parse_u8_text, same_text, same_text_ignore_ascii_case, split_at_commas,
    split_commas, trim_text, trimmed, unsigned_part,
};
use vstd::prelude::*;

verus! {

/// The name of one of the sixteen palette colors; empty for the others.
pub open spec fn color_name(c: NamedColor) -> Seq<char> {
    match c {
        NamedColor::Black => "Black"@,
        NamedColor::Red => "Red"@,
        NamedColor::Green => "Green"@,
        NamedColor::Yellow => "Yellow"@,
        NamedColor::Blue => "Blue"@,
        NamedColor::Magenta => "Magenta"@,
        NamedColor::Cyan => "Cyan"@,
        NamedColor::White => "White"@,
        NamedColor::LightBlack => "LightBlack"@,
        NamedColor::LightRed => "LightRed"@,
        NamedColor::LightGreen => "LightGreen"@,
        NamedColor::LightYellow => "LightYellow"@,
        NamedColor::LightBlue => "LightBlue"@,
        NamedColor::LightMagenta => "LightMagenta"@,
        NamedColor::LightCyan => "LightCyan"@,
        NamedColor::LightWhite => "LightWhite"@,
        _ => Seq::empty(),
    }
}

/// The palette color with a given name.
pub open spec fn color_from_name(s: Seq<char>) -> Option<NamedColor> {
    if s == "Black"@ {
        Some(NamedColor::Black)
    } else if s == "Red"@ {
        Some(NamedColor::Red)
    } else if s == "Green"@ {
        Some(NamedColor::Green)
    } else if s == "Yellow"@ {
        Some(NamedColor::Yellow)
    } else if s == "Blue"@ {
        Some(NamedColor::Blue)
    } else if s == "Magenta"@ {
        Some(NamedColor::Magenta)
    } else if s == "Cyan"@ {
        Some(NamedColor::Cyan)
    } else if s == "White"@ {
        Some(NamedColor::White)
    } else if s == "LightBlack"@ {
        Some(NamedColor::LightBlack)
    } else if s == "LightRed"@ {
        Some(NamedColor::LightRed)
    } else if s == "LightGreen"@ {
        Some(NamedColor::LightGreen)
    } else if s == "LightYellow"@ {
        Some(NamedColor::LightYellow)
    } else if s == "LightBlue"@ {
        Some(NamedColor::LightBlue)
    } else if s == "LightMagenta"@ {
        Some(NamedColor::LightMagenta)
    } else if s == "LightCyan"@ {
        Some(NamedColor::LightCyan)
    } else if s == "LightWhite"@ {
        Some(NamedColor::LightWhite)
    } else {
        None
    }
}

/// The text form of an optional color in a theme file: `None`, a palette
/// color's name, `Code256(n)` or `FullColor(r,g,b)` with decimal numbers.
pub open spec fn color_text(c: Option<NamedColor>) -> Seq<char> {
    match c {
        None => "None"@,
        Some(NamedColor::Code256(n)) => "Code256("@ + decimal(n) + ")"@,
        Some(NamedColor::FullColor(r, g, b)) => "FullColor("@ + decimal(r) + ","@ + decimal(g) + ","@
            + decimal(b) + ")"@,
        Some(k) => color_name(k),
    }
}

/// The form in which the theme editor offers a color: a palette color's
/// name, `Code256(n)`, or `#RRGGBB` for a direct color.
pub open spec fn color_display_text(c: NamedColor) -> Seq<char> {
    match c {
        NamedColor::Code256(n) => "Code256("@ + decimal(n) + ")"@,
        NamedColor::FullColor(r, g, b) => "#"@ + hex_byte(r) + hex_byte(g) + hex_byte(b),
        _ => color_name(c),
    }
}

/// Whether `s` has more characters than `prefix`, starts with `prefix` and
/// ends with a closing parenthesis.
pub open spec fn wrapped_in(s: Seq<char>, prefix: Seq<char>) -> bool {
    s.len() > prefix.len() && s.subrange(0, prefix.len() as int) == prefix && s.last() == ')'
}

/// The three byte values of `FullColor(r,g,b)` arguments: exactly three
/// comma-separated parts, each a byte in decimal once trimmed.
pub open spec fn parse_rgb_args(inner: Seq<char>) -> Option<(u8, u8, u8)> {
    let parts = split_commas(inner);
    if parts.len() == 3 {
        match (parse_u8(trimmed(parts[0])), parse_u8(trimmed(parts[1])), parse_u8(trimmed(parts[2]))) {
            (Some(r), Some(g), Some(b)) => Some((r, g, b)),
            _ => None,
        }
    } else {
        None
    }
}

/// What a theme file's color text means: `None` in any letter case, a
/// palette color's name, `Code256(n)` or `FullColor(r,g,b)`; nothing for
/// any other text.
pub open spec fn parse_named_color(s: Seq<char>) -> Option<Option<NamedColor>> {
    if eq_ignore_ascii_case(s, "None"@) {
        Some(None)
    } else if color_from_name(s) is Some {
        Some(color_from_name(s))
    } else if wrapped_in(s, "Code256("@) {
        match parse_u8(s.subrange(8, s.len() - 1)) {
            Some(n) => Some(Some(NamedColor::Code256(n))),
            None => None,
        }
    } else if wrapped_in(s, "FullColor("@) {
        match parse_rgb_args(s.subrange(10, s.len() - 1)) {
            Some((r, g, b)) => Some(Some(NamedColor::FullColor(r, g, b))),
            None => None,
        }
    } else {
        None
    }
}

fn color_name_of(c: NamedColor) -> (r: &'static str)
    ensures
        r@ == color_name(c),
{
    match c {
        NamedColor::Black => "Black",
        NamedColor::Red => "Red",
        NamedColor::Green => "Green",
        NamedColor::Yellow => "Yellow",
        NamedColor::Blue => "Blue",
        NamedColor::Magenta => "Magenta",
        NamedColor::Cyan => "Cyan",
        NamedColor::White => "White",
        NamedColor::LightBlack => "LightBlack",
        NamedColor::LightRed => "LightRed",
        NamedColor::LightGreen => "LightGreen",
        NamedColor::LightYellow => "LightYellow",
        NamedColor::LightBlue => "LightBlue",
        NamedColor::LightMagenta => "LightMagenta",
        NamedColor::LightCyan => "LightCyan",
        NamedColor::LightWhite => "LightWhite",
        _ => {
            proof {
                reveal_strlit("");
            }
            ""
        },
    }
}

/// Writes an optional color in its theme-file text form.
pub fn serialize_to_string(color: &Option<NamedColor>) -> (r: String)
    ensures
        r@ == color_text(*color),
{
    match color {
        None => String::from_str("None"),
        Some(NamedColor::Code256(n)) => {
            let mut out = String::from_str("Code256(");
            push_decimal(&mut out, *n);
            out.append(")");
            out
        },
        Some(NamedColor::FullColor(r, g, b)) => {
            let mut out = String::from_str("FullColor(");
            push_decimal(&mut out, *r);
            out.append(",");
            push_decimal(&mut out, *g);
            out.append(",");
            push_decimal(&mut out, *b);
            out.append(")");
            out
        },
        Some(k) => String::from_str(color_name_of(*k)),
    }
}

/// Writes a color in the form the theme editor offers it.
pub fn display_named_color(c: &NamedColor) -> (r: String)
    ensures
        r@ == color_display_text(*c),
{
    match c {
        NamedColor::Code256(n) => {
            let mut out = String::from_str("Code256(");
            push_decimal(&mut out, *n);
            out.append(")");
            out
        },
        NamedColor::FullColor(r, g, b) => {
            let mut out = String::from_str("#");
            push_hex_byte(&mut out, *r);
            push_hex_byte(&mut out, *g);
            push_hex_byte(&mut out, *b);
            out
        },
        _ => String::from_str(color_name_of(*c)),
    }
}

fn named_from_text(s: &str) -> (r: Option<NamedColor>)
    ensures
        r == color_from_name(s@),
{
    if same_text(s, "Black") {
        Some(NamedColor::Black)
    } else if same_text(s, "Red") {
        Some(NamedColor::Red)
    } else if same_text(s, "Green") {
        Some(NamedColor::Green)
    } else if same_text(s, "Yellow") {
        Some(NamedColor::Yellow)
    } else if same_text(s, "Blue") {
        Some(NamedColor::Blue)
    } else if same_text(s, "Magenta") {
        Some(NamedColor::Magenta)
    } else if same_text(s, "Cyan") {
        Some(NamedColor::Cyan)
    } else if same_text(s, "White") {
        Some(NamedColor::White)
    } else if same_text(s, "LightBlack") {
        Some(NamedColor::LightBlack)
    } else if same_text(s, "LightRed") {
        Some(NamedColor::LightRed)
    } else if same_text(s, "LightGreen") {
        Some(NamedColor::LightGreen)
    } else if same_text(s, "LightYellow") {
        Some(NamedColor::LightYellow)
    } else if same_text(s, "LightBlue") {
        Some(NamedColor::LightBlue)
    } else if same_text(s, "LightMagenta") {
        Some(NamedColor::LightMagenta)
    } else if same_text(s, "LightCyan") {
        Some(NamedColor::LightCyan)
    } else if same_text(s, "LightWhite") {
        Some(NamedColor::LightWhite)
    } else {
        None
    }
}

fn is_wrapped_in(s: &str, prefix: &str) -> (r: bool)
    ensures
        r == wrapped_in(s@, prefix@),
{
    let n = s.unicode_len();
    let p = prefix.unicode_len();
    if n <= p {
        return false;
    }
    let head = s.substring_char(0, p);
    same_text(head, prefix) && s.get_char(n - 1) == ')'
}

fn rgb_args(inner: &str) -> (r: Option<(u8, u8, u8)>)
    ensures
        r == parse_rgb_args(inner@),
{
    let parts = split_at_commas(inner);
    if parts.len() != 3 {
        return None;
    }
    let ghost pv = parts@.map_values(|p: String| p@);
    assert(pv[0] == parts@[0]@ && pv[1] == parts@[1]@ && pv[2] == parts@[2]@);
    let r = parse_u8_text(trim_text(parts[0].as_str()).as_str());
    let g = parse_u8_text(trim_text(parts[1].as_str()).as_str());
    let b = parse_u8_text(trim_text(parts[2].as_str()).as_str());
    match (r, g, b) {
        (Some(r), Some(g), Some(b)) => Some((r, g, b)),
        _ => None,
    }
}

fn error_text(head: &str, s: &str) -> (r: String) {
    let mut out = String::from_str(head);
    out.append(s);
    out
}

/// Reads a color from its theme-file text form; the error names the text
/// that could not be read.
pub fn deserialize_from_str(s: &str) -> (r: Result<Option<NamedColor>, String>)
    ensures
        match r {
            Ok(c) => parse_named_color(s@) == Some(c),
            Err(_) => parse_named_color(s@) is None,
        },
{
    if same_text_ignore_ascii_case(s, "None") {
        return Ok(None);
    }
    let named = named_from_text(s);
    if named.is_some() {
        return Ok(named);
    }
    let n = s.unicode_len();
    if is_wrapped_in(s, "Code256(") {
        proof {
            reveal_strlit("Code256(");
        }
        let inner = s.substring_char(8, n - 1);
        return match parse_u8_text(inner) {
            Some(code) => Ok(Some(NamedColor::Code256(code))),
            None => Err(error_text("Invalid Code256 format: ", s)),
        };
    }
    if is_wrapped_in(s, "FullColor(") {
        proof {
            reveal_strlit("FullColor(");
        }
        let inner = s.substring_char(10, n - 1);
        return match rgb_args(inner) {
            Some((r, g, b)) => Ok(Some(NamedColor::FullColor(r, g, b))),
            None => Err(error_text("Invalid FullColor format, expected FullColor(r,g,b): ", s)),
        };
    }
    Err(error_text("Unknown NamedColor variant or invalid format: ", s))
}

/// Whether a character is a hexadecimal digit.
pub open spec fn is_hex_digit(c: char) -> bool {
    let u = c as u32;
    (48 <= u <= 57) || (65 <= u <= 70) || (97 <= u <= 102)
}

/// The value of a hexadecimal digit.
pub open spec fn hex_value(c: char) -> int {
    let u = c as u32;
    if u <= 57 {
        u - 48
    } else if u <= 70 {
        u - 55
    } else {
        u - 87
    }
}

/// The byte that a two-character pair names, as `u8::from_str_radix(pair,
/// 16)` reads it: two hexadecimal digits, or a `+` and one hexadecimal digit.
pub open spec fn hex_pair_value(a: char, b: char) -> Option<u8> {
    if is_hex_digit(a) && is_hex_digit(b) {
        Some((hex_value(a) * 16 + hex_value(b)) as u8)
    } else if a == '+' && is_hex_digit(b) {
        Some(hex_value(b) as u8)
    } else {
        None
    }
}

/// The color that a `#RRGGBB` text names: exactly seven characters, a `#`
/// and three pairs, each two hexadecimal digits in either case or a `+` and
/// one hexadecimal digit.
pub open spec fn parse_hex_rgb(s: Seq<char>) -> Option<(u8, u8, u8)> {
    if s.len() == 7 && s[0] == '#' {
        match (hex_pair_value(s[1], s[2]), hex_pair_value(s[3], s[4]), hex_pair_value(s[5], s[6])) {
            (Some(r), Some(g), Some(b)) => Some((r, g, b)),
            _ => None,
        }
    } else {
        None
    }
}

fn hex_digit_value(c: char) -> (r: Option<u8>)
    ensures
        is_hex_digit(c) ==> r == Some(hex_value(c) as u8),
        !is_hex_digit(c) ==> r is None,
{
    let u = c as u32;
    if u >= 48 && u <= 57 {
        Some((u - 48) as u8)
    } else if u >= 65 && u <= 70 {
        Some((u - 55) as u8)
    } else if u >= 97 && u <= 102 {
        Some((u - 87) as u8)
    } else {
        None
    }
}

fn hex_pair(s: &str, i: usize) -> (r: Option<u8>)
    requires
        i < 6,
        s@.len() == 7,
    ensures
        r == hex_pair_value(s@[i as int], s@[i + 1]),
{
    let first = s.get_char(i);
    match (hex_digit_value(first), hex_digit_value(s.get_char(i + 1))) {
        (Some(hi), Some(lo)) => Some(hi * 16 + lo),
        (None, Some(lo)) => {
            if first == '+' {
                Some(lo)
            } else {
                None
            }
        },
        _ => None,
    }
}

/// Reads a `#RRGGBB` color.
pub fn parse_hex_color(s: &str) -> (r: Option<(u8, u8, u8)>)
    ensures
        r == parse_hex_rgb(s@),
{
    if s.unicode_len() != 7 || s.get_char(0) != '#' {
        return None;
    }
    let r = hex_pair(s, 1);
    let g = hex_pair(s, 3);
    let b = hex_pair(s, 5);
    match (r, g, b) {
        (Some(r), Some(g), Some(b)) => Some((r, g, b)),
        _ => None,
    }
}

// ---------------------------------------------------------------- laws

proof fn lemma_digit_char(k: u8)
    requires
        k < 10,
    ensures
        hex_char(k) as u32 == 48 + k,
        is_digit(hex_char(k)),
        !is_white_space(hex_char(k)),
        hex_char(k) != ',',
        hex_char(k) != '+',
        hex_char(k) != ')',
{
    reveal_strlit("0123456789ABCDEF");
    assert(k == 0 || k == 1 || k == 2 || k == 3 || k == 4 || k == 5 || k == 6 || k == 7 || k == 8
        || k == 9);
}

proof fn lemma_decimal_facts(n: u8)
    ensures
        1 <= decimal(n).len() <= 3,
        parse_u8(decimal(n)) == Some(n),
        trimmed(decimal(n)) == decimal(n),
        forall|i: int| 0 <= i < decimal(n).len() ==> #[trigger] decimal(n)[i] != ',',
        is_digit(decimal(n)[0]),
        decimal(n).last() != ')',
{
    let d = decimal(n);
    if n >= 100 {
        let (a, b, c) = ((n / 100) as u8, ((n / 10) % 10) as u8, (n % 10) as u8);
        lemma_digit_char(a);
        lemma_digit_char(b);
        lemma_digit_char(c);
        let d2 = seq![hex_char(a), hex_char(b)];
        let d1 = seq![hex_char(a)];
        assert(d == d2.push(hex_char(c)));
        assert(d.drop_last() =~= d2);
        assert(d2.drop_last() =~= d1);
        assert(d1.drop_last() =~= Seq::<char>::empty());
        assert(d1.last() == hex_char(a));
        assert(digits_value(d1.drop_last()) == 0);
        assert(digits_value(d1) == a as int);
        assert(digits_value(d2) == a as int * 10 + b);
        assert(digits_value(d) == (a as int * 10 + b) * 10 + c);
        assert((a as int * 10 + b) * 10 + c == n as int);
    } else if n >= 10 {
        let (a, b) = ((n / 10) as u8, (n % 10) as u8);
        lemma_digit_char(a);
        lemma_digit_char(b);
        let d1 = seq![hex_char(a)];
        assert(d == d1.push(hex_char(b)));
        assert(d.drop_last() =~= d1);
        assert(d1.drop_last() =~= Seq::<char>::empty());
        assert(d1.last() == hex_char(a));
        assert(digits_value(d1.drop_last()) == 0);
        assert(digits_value(d1) == a as int);
        assert(digits_value(d) == a as int * 10 + b);
        assert(a as int * 10 + b == n as int);
    } else {
        lemma_digit_char(n);
        assert(d.drop_last() =~= Seq::<char>::empty());
        assert(digits_value(Seq::<char>::empty()) == 0);
        assert(digits_value(d) == n as int);
    }
    assert(unsigned_part(d) == d);
    assert(all_digits(d));
}

proof fn lemma_split_without_comma(x: Seq<char>)
    requires
        forall|i: int| 0 <= i < x.len() ==> #[trigger] x[i] != ',',
    ensures
        split_commas(x) == seq![x],
    decreases x.len(),
{
    if x.len() > 0 {
        let y = x.drop_last();
        lemma_split_without_comma(y);
        assert(split_commas(x) =~= seq![y].update(0, y.push(x.last())));
        assert(y.push(x.last()) =~= x);
        assert(split_commas(x) =~= seq![x]);
    } else {
        assert(x =~= Seq::<char>::empty());
        assert(split_commas(x) =~= seq![x]);
    }
}

proof fn lemma_split_after_comma(x: Seq<char>, y: Seq<char>)
    ensures
        split_commas(x + seq![','] + y) == split_commas(x) + split_commas(y),
    decreases y.len(),
{
    let xc = x + seq![','];
    if y.len() == 0 {
        assert(xc + y =~= xc);
        assert(xc.drop_last() =~= x);
        assert(split_commas(y) =~= seq![Seq::<char>::empty()]);
        assert(split_commas(xc) =~= split_commas(x) + split_commas(y));
    } else {
        let y0 = y.drop_last();
        lemma_split_after_comma(x, y0);
        lemma_split_nonempty(y0);
        assert((xc + y).drop_last() =~= xc + y0);
        assert((xc + y).last() == y.last());
        let left = split_commas(x);
        let r0 = split_commas(y0);
        if y.last() == ',' {
            assert(split_commas(xc + y) =~= (left + r0).push(Seq::<char>::empty()));
            assert(split_commas(y) =~= r0.push(Seq::<char>::empty()));
            assert((left + r0).push(Seq::<char>::empty()) =~= left + r0.push(Seq::<char>::empty()));
        } else {
            let all = left + r0;
            assert(all.last() == r0.last());
            assert(split_commas(xc + y) =~= all.update(all.len() - 1, r0.last().push(y.last())));
            assert(split_commas(y) =~= r0.update(r0.len() - 1, r0.last().push(y.last())));
            assert(all.update(all.len() - 1, r0.last().push(y.last())) =~= left + r0.update(
                r0.len() - 1,
                r0.last().push(y.last()),
            ));
        }
    }
}

proof fn lemma_rgb_args_round_trip(r: u8, g: u8, b: u8)
    ensures
        parse_rgb_args(decimal(r) + ","@ + decimal(g) + ","@ + decimal(b)) == Some((r, g, b)),
{
    reveal_strlit(",");
    lemma_decimal_facts(r);
    lemma_decimal_facts(g);
    lemma_decimal_facts(b);
    let (dr, dg, db) = (decimal(r), decimal(g), decimal(b));
    lemma_split_without_comma(dr);
    lemma_split_without_comma(dg);
    lemma_split_without_comma(db);
    lemma_split_after_comma(dr, dg);
    lemma_split_after_comma(dr + seq![','] + dg, db);
    assert(","@ =~= seq![',']);
    assert(dr + ","@ + dg + ","@ + db =~= (dr + seq![','] + dg) + seq![','] + db);
    assert(split_commas(dr + ","@ + dg + ","@ + db) =~= seq![dr, dg, db]);
}

proof fn lemma_name_round_trip(k: NamedColor)
    requires
        !(k is Code256),
        !(k is FullColor),
    ensures
        color_from_name(color_name(k)) == Some(k),
{
    reveal_strlit("Black");
    reveal_strlit("Red");
    reveal_strlit("Green");
    reveal_strlit("Yellow");
    reveal_strlit("Blue");
    reveal_strlit("Magenta");
    reveal_strlit("Cyan");
    reveal_strlit("White");
    reveal_strlit("LightBlack");
    reveal_strlit("LightRed");
    reveal_strlit("LightGreen");
    reveal_strlit("LightYellow");
    reveal_strlit("LightBlue");
    reveal_strlit("LightMagenta");
    reveal_strlit("LightCyan");
    reveal_strlit("LightWhite");
    assert("Black"@[0] == 'B' && "Red"@[0] == 'R' && "Green"@[0] == 'G' && "Yellow"@[0] == 'Y');
    assert("Blue"@[0] == 'B' && "Magenta"@[0] == 'M' && "Cyan"@[0] == 'C' && "White"@[0] == 'W');
    assert("LightBlack"@[5] == 'B' && "LightRed"@[5] == 'R' && "LightGreen"@[5] == 'G');
    assert("LightYellow"@[5] == 'Y' && "LightBlue"@[5] == 'B' && "LightMagenta"@[5] == 'M');
    assert("LightCyan"@[5] == 'C' && "LightWhite"@[5] == 'W');
    assert("Black"@.len() == 5 && "Blue"@.len() == 4 && "LightBlack"@.len() == 10 && "LightBlue"@.len() == 9);
    match k {
        NamedColor::Black => {},
        NamedColor::Red => {},
        NamedColor::Green => {},
        NamedColor::Yellow => {},
        NamedColor::Blue => {},
        NamedColor::Magenta => {},
        NamedColor::Cyan => {},
        NamedColor::White => {},
        NamedColor::LightBlack => {},
        NamedColor::LightRed => {},
        NamedColor::LightGreen => {},
        NamedColor::LightYellow => {},
        NamedColor::LightBlue => {},
        NamedColor::LightMagenta => {},
        NamedColor::LightCyan => {},
        NamedColor::LightWhite => {},
        _ => {},
    }
}

/// Writing a color in its theme-file text form and reading the text back
/// gives the same color.
pub proof fn lemma_color_text_round_trip(c: Option<NamedColor>)
    ensures
        parse_named_color(color_text(c)) == Some(c),
{
    reveal_strlit("None");
    reveal_strlit("Black");
    reveal_strlit("Red");
    reveal_strlit("Green");
    reveal_strlit("Yellow");
    reveal_strlit("Blue");
    reveal_strlit("Magenta");
    reveal_strlit("Cyan");
    reveal_strlit("White");
    reveal_strlit("LightBlack");
    reveal_strlit("LightRed");
    reveal_strlit("LightGreen");
    reveal_strlit("LightYellow");
    reveal_strlit("LightBlue");
    reveal_strlit("LightMagenta");
    reveal_strlit("LightCyan");
    reveal_strlit("LightWhite");
    reveal_strlit("Code256(");
    reveal_strlit("FullColor(");
    reveal_strlit(")");
    reveal_strlit(",");
    let s = color_text(c);
    let none = "None"@;
    match c {
        None => {
            assert(eq_ignore_ascii_case(s, none));
        },
        Some(NamedColor::Code256(n)) => {
            lemma_decimal_facts(n);
            let d = decimal(n);
            assert(s[0] == 'C');
            assert(!eq_ignore_ascii_case(s, none)) by {
                if s.len() == none.len() {
                    assert(ascii_fold(s[0]) != ascii_fold(none[0]));
                }
            }
            assert(color_from_name(s) is None);
            assert(s.subrange(0, 8) =~= "Code256("@);
            assert(s.subrange(8, s.len() - 1) =~= d);
        },
        Some(NamedColor::FullColor(r, g, b)) => {
            lemma_decimal_facts(r);
            lemma_decimal_facts(g);
            lemma_decimal_facts(b);
            lemma_rgb_args_round_trip(r, g, b);
            assert(s[0] == 'F');
            assert(!eq_ignore_ascii_case(s, none)) by {
                if s.len() == none.len() {
                    assert(ascii_fold(s[0]) != ascii_fold(none[0]));
                }
            }
            assert(color_from_name(s) is None);
            assert(!wrapped_in(s, "Code256("@)) by {
                if s.len() > 8 {
                    assert(s.subrange(0, 8)[0] != "Code256("@[0]);
                }
            }
            assert(s.subrange(0, 10) =~= "FullColor("@);
            assert(s.subrange(10, s.len() - 1) =~= decimal(r) + ","@ + decimal(g) + ","@ + decimal(b));
        },
        Some(k) => {
            assert(!eq_ignore_ascii_case(s, none)) by {
                if s.len() == none.len() {
                    assert(ascii_fold(s[0]) != ascii_fold(none[0]));
                }
            }
            lemma_name_round_trip(k);
        },
    }
}

} // verus!
