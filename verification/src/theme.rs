use vstd::prelude::*;
use crate::text::{chars_of, decimal, push_decimal, push_str};

verus! {

/// The colors of an Omarchy theme (`colors.toml`); each entry may be absent.
pub struct OmarchyColors {
    pub mode: Option<String>,
    pub accent: Option<String>,
    pub selection: Option<String>,
    pub muted: Option<String>,
    pub background: Option<String>,
    pub dark_background: Option<String>,
    pub darker_background: Option<String>,
    pub lighter_background: Option<String>,
    pub foreground: Option<String>,
    pub dark_foreground: Option<String>,
    pub light_foreground: Option<String>,
    pub bright_foreground: Option<String>,
    pub red: Option<String>,
    pub yellow: Option<String>,
    pub green: Option<String>,
    pub cyan: Option<String>,
    pub blue: Option<String>,
    pub magenta: Option<String>,
}

impl Default for OmarchyColors {
    fn default() -> (c: Self)
        ensures
            c.mode is None && c.accent is None && c.selection is None && c.muted is None,
            c.background is None && c.dark_background is None && c.darker_background is None,
            c.lighter_background is None && c.foreground is None && c.dark_foreground is None,
            c.light_foreground is None && c.bright_foreground is None && c.red is None,
            c.yellow is None && c.green is None && c.cyan is None && c.blue is None,
            c.magenta is None,
    {
        OmarchyColors {
            mode: None,
            accent: None,
            selection: None,
            muted: None,
            background: None,
            dark_background: None,
            darker_background: None,
            lighter_background: None,
            foreground: None,
            dark_foreground: None,
            light_foreground: None,
            bright_foreground: None,
            red: None,
            yellow: None,
            green: None,
            cyan: None,
            blue: None,
            magenta: None,
        }
    }
}

/// `value` is present and reads `text`.
pub open spec fn opt_is(value: Option<String>, text: Seq<char>) -> bool {
    match value {
        Some(s) => s@ == text,
        None => false,
    }
}

/// The built-in theme (Tokyo Night), used when no Omarchy theme can be read.
pub open spec fn is_builtin_theme(c: OmarchyColors) -> bool {
    &&& opt_is(c.mode, "dark"@)
    &&& opt_is(c.accent, "#7aa2f7"@)
    &&& opt_is(c.selection, "#292e42"@)
    &&& opt_is(c.muted, "#414868"@)
    &&& opt_is(c.background, "#1a1b26"@)
    &&& opt_is(c.dark_background, "#13141c"@)
    &&& opt_is(c.darker_background, "#0e0e14"@)
    &&& opt_is(c.lighter_background, "#24283b"@)
    &&& opt_is(c.foreground, "#a9b1d6"@)
    &&& opt_is(c.dark_foreground, "#565f89"@)
    &&& opt_is(c.light_foreground, "#b4bee6"@)
    &&& opt_is(c.bright_foreground, "#c0caf5"@)
    &&& opt_is(c.red, "#f7768e"@)
    &&& opt_is(c.yellow, "#e0af68"@)
    &&& opt_is(c.green, "#9ece6a"@)
    &&& opt_is(c.cyan, "#449dab"@)
    &&& opt_is(c.blue, "#7aa2f7"@)
    &&& opt_is(c.magenta, "#ad8ee6"@)
}

/// The built-in theme (Tokyo Night), with every color present.
pub fn builtin_theme() -> (c: OmarchyColors)
    ensures
        is_builtin_theme(c),
{
    OmarchyColors {
        mode: Some("dark".to_string()),
        accent: Some("#7aa2f7".to_string()),
        selection: Some("#292e42".to_string()),
        muted: Some("#414868".to_string()),
        background: Some("#1a1b26".to_string()),
        dark_background: Some("#13141c".to_string()),
        darker_background: Some("#0e0e14".to_string()),
        lighter_background: Some("#24283b".to_string()),
        foreground: Some("#a9b1d6".to_string()),
        dark_foreground: Some("#565f89".to_string()),
        light_foreground: Some("#b4bee6".to_string()),
        bright_foreground: Some("#c0caf5".to_string()),
        red: Some("#f7768e".to_string()),
        yellow: Some("#e0af68".to_string()),
        green: Some("#9ece6a".to_string()),
        cyan: Some("#449dab".to_string()),
        blue: Some("#7aa2f7".to_string()),
        magenta: Some("#ad8ee6".to_string()),
    }
}

/// The theme in use: the one read from the Omarchy theme file when it could
/// be read and parsed, else the built-in one.
pub fn theme_or_builtin(parsed: Option<OmarchyColors>) -> (c: OmarchyColors)
    ensures
        match parsed {
            Some(p) => c == p,
            None => is_builtin_theme(c),
        },
{
    match parsed {
        Some(p) => p,
        None => builtin_theme(),
    }
}

/// True for the characters of Unicode's White_Space property (what std's
/// `char::is_whitespace` and `str::trim` go by).
pub open spec fn is_white_space(c: char) -> bool {
    let u = c as u32;
    ||| 9 <= u <= 13
    ||| u == 32
    ||| u == 0x85
    ||| u == 0xA0
    ||| u == 0x1680
    ||| 0x2000 <= u <= 0x200A
    ||| u == 0x2028
    ||| u == 0x2029
    ||| u == 0x202F
    ||| u == 0x205F
    ||| u == 0x3000
}

/// `s` without its leading white space.
pub open spec fn trim_start(s: Seq<char>) -> Seq<char>
    decreases s.len(),
{
    if s.len() > 0 && is_white_space(s[0]) {
        trim_start(s.drop_first())
    } else {
        s
    }
}

/// `s` without its trailing white space.
pub open spec fn trim_end(s: Seq<char>) -> Seq<char>
    decreases s.len(),
{
    if s.len() > 0 && is_white_space(s.last()) {
        trim_end(s.drop_last())
    } else {
        s
    }
}

/// `s` without its leading `#` characters.
pub open spec fn strip_hashes(s: Seq<char>) -> Seq<char>
    decreases s.len(),
{
    if s.len() > 0 && s[0] == '#' {
        strip_hashes(s.drop_first())
    } else {
        s
    }
}

/// The digits of a hex color: trimmed of white space, without leading `#`s.
pub open spec fn hex_digits_of(hex: Seq<char>) -> Seq<char> {
    strip_hashes(trim_end(trim_start(hex)))
}

/// The value of a hexadecimal digit, either case.
pub open spec fn hex_digit_value(c: char) -> Option<nat> {
    let u = c as u32;
    if 48 <= u <= 57 {
        Some((u - 48) as nat)
    } else if 97 <= u <= 102 {
        Some((u - 87) as nat)
    } else if 65 <= u <= 70 {
        Some((u - 55) as nat)
    } else {
        None
    }
}

/// A two-character hex byte as std's `u8::from_str_radix(_, 16)` reads it:
/// two hex digits, or `+` and one hex digit.
pub open spec fn hex_byte(a: char, b: char) -> Option<u8> {
    if a == '+' {
        match hex_digit_value(b) {
            Some(y) => Some(y as u8),
            None => None,
        }
    } else {
        match (hex_digit_value(a), hex_digit_value(b)) {
            (Some(x), Some(y)) => Some((16 * x + y) as u8),
            _ => None,
        }
    }
}

/// The red, green and blue bytes of a `#rrggbb` color, if it is one.
pub open spec fn hex_rgb(hex: Seq<char>) -> Option<(u8, u8, u8)> {
    let s = hex_digits_of(hex);
    if s.len() == 6 {
        match (hex_byte(s[0], s[1]), hex_byte(s[2], s[3]), hex_byte(s[4], s[5])) {
            (Some(r), Some(g), Some(b)) => Some((r, g, b)),
            _ => None,
        }
    } else {
        None
    }
}

/// The number of bytes of the UTF-8 encoding of a character.
pub open spec fn utf8_width(c: char) -> nat {
    let u = c as u32;
    if u < 0x80 {
        1
    } else if u < 0x800 {
        2
    } else if u < 0x10000 {
        3
    } else {
        4
    }
}

/// The number of bytes of the UTF-8 encoding of a string.
pub open spec fn utf8_len(s: Seq<char>) -> nat
    decreases s.len(),
{
    if s.len() == 0 {
        0
    } else {
        utf8_len(s.drop_last()) + utf8_width(s.last())
    }
}

/// True when byte offset `k` falls between two characters of `s`.
pub open spec fn is_byte_boundary(s: Seq<char>, k: nat) -> bool {
    exists|m: int| 0 <= m <= s.len() && utf8_len(#[trigger] s.take(m)) == k
}

/// True when the color text can be cut into its three byte pairs: reading a
/// six-byte color whose second or third pair would split a character is an
/// error that the reader does not recover from.
pub open spec fn hex_color_splits(hex: Seq<char>) -> bool {
    let s = hex_digits_of(hex);
    utf8_len(s) == 6 ==> is_byte_boundary(s, 2) && is_byte_boundary(s, 4)
}

fn white_space(c: char) -> (r: bool)
    ensures
        r == is_white_space(c),
{
    let u = c as u32;
    (9 <= u && u <= 13) || u == 32 || u == 0x85 || u == 0xA0 || u == 0x1680 || (0x2000 <= u && u
        <= 0x200A) || u == 0x2028 || u == 0x2029 || u == 0x202F || u == 0x205F || u == 0x3000
}

/// The digits of a hex color: trimmed of white space, without leading `#`s.
fn hex_digit_chars(hex: &str) -> (r: Vec<char>)
    ensures
        r@ == hex_digits_of(hex@),
{
    let cs = chars_of(hex);
    let n = cs.len();
    let ghost s = cs@;
    let mut i: usize = 0;
    assert(s.skip(0) =~= s);
    while i < n && white_space(cs[i])
        invariant
            n == s.len(),
            s == cs@,
            i <= n,
            trim_start(s) == trim_start(s.skip(i as int)),
        decreases n - i,
    {
        assert(s.skip(i as int).drop_first() =~= s.skip(i + 1));
        i = i + 1;
    }
    assert(trim_start(s) == s.skip(i as int));
    let mut j: usize = n;
    assert(s.skip(i as int) =~= s.subrange(i as int, n as int));
    while j > i && white_space(cs[j - 1])
        invariant
            n == s.len(),
            s == cs@,
            i <= j <= n,
            trim_end(s.skip(i as int)) == trim_end(s.subrange(i as int, j as int)),
        decreases j,
    {
        assert(s.subrange(i as int, j as int).drop_last() =~= s.subrange(i as int, j - 1));
        j = j - 1;
    }
    assert(trim_end(trim_start(s)) == s.subrange(i as int, j as int));
    let mut k: usize = i;
    while k < j && cs[k] == '#'
        invariant
            n == s.len(),
            s == cs@,
            i <= k <= j <= n,
            strip_hashes(s.subrange(i as int, j as int)) == strip_hashes(s.subrange(k as int, j as int)),
        decreases j - k,
    {
        assert(s.subrange(k as int, j as int).drop_first() =~= s.subrange(k + 1, j as int));
        k = k + 1;
    }
    let mut out: Vec<char> = Vec::new();
    let mut m: usize = k;
    while m < j
        invariant
            n == s.len(),
            s == cs@,
            k <= m <= j <= n,
            out@ == s.subrange(k as int, m as int),
        decreases j - m,
    {
        out.push(cs[m]);
        assert(s.subrange(k as int, m + 1) =~= s.subrange(k as int, m as int).push(s[m as int]));
        m = m + 1;
    }
    out
}

fn hex_digit(c: char) -> (r: Option<u8>)
    ensures
        match r {
            Some(v) => hex_digit_value(c) == Some(v as nat),
            None => hex_digit_value(c) is None,
        },
{
    let u = c as u32;
    if 48 <= u && u <= 57 {
        Some((u - 48) as u8)
    } else if 97 <= u && u <= 102 {
        Some((u - 87) as u8)
    } else if 65 <= u && u <= 70 {
        Some((u - 55) as u8)
    } else {
        None
    }
}

fn parse_hex_byte(a: char, b: char) -> (r: Option<u8>)
    ensures
        r == hex_byte(a, b),
{
    if a == '+' {
        match hex_digit(b) {
            Some(y) => Some(y),
            None => None,
        }
    } else {
        match (hex_digit(a), hex_digit(b)) {
            (Some(x), Some(y)) => Some(16 * x + y),
            _ => None,
        }
    }
}

/// The red, green and blue bytes of a `#rrggbb` color (the integer part of
/// reading a hex color; white space around it and any number of leading `#`
/// are ignored).
pub fn parse_hex_rgb(hex: &str) -> (r: Option<(u8, u8, u8)>)
    requires
        hex_color_splits(hex@),
    ensures
        r == hex_rgb(hex@),
{
    let s = hex_digit_chars(hex);
    if s.len() != 6 {
        return None;
    }
    match (parse_hex_byte(s[0], s[1]), parse_hex_byte(s[2], s[3]), parse_hex_byte(s[4], s[5])) {
        (Some(r), Some(g), Some(b)) => Some((r, g, b)),
        _ => None,
    }
}

fn char_width(c: char) -> (r: u128)
    ensures
        r == utf8_width(c),
{
    let u = c as u32;
    if u < 0x80 {
        1
    } else if u < 0x800 {
        2
    } else if u < 0x10000 {
        3
    } else {
        4
    }
}

/// Whether the color text can be cut into its three byte pairs without
/// splitting a character (see [`hex_color_splits`]).
pub fn hex_color_cuts_cleanly(hex: &str) -> (r: bool)
    ensures
        r == hex_color_splits(hex@),
{
    let s = hex_digit_chars(hex);
    let n = s.len();
    let mut total: u128 = 0;
    let mut at2 = false;
    let mut at4 = false;
    let mut i: usize = 0;
    proof {
        assert(s@.take(0) =~= Seq::<char>::empty());
    }
    while i < n
        invariant
            n == s@.len(),
            i <= n,
            total == utf8_len(s@.take(i as int)),
            total <= 4 * i,
            at2 == (exists|m: int| 0 <= m <= i && utf8_len(#[trigger] s@.take(m)) == 2),
            at4 == (exists|m: int| 0 <= m <= i && utf8_len(#[trigger] s@.take(m)) == 4),
        decreases n - i,
    {
        if total == 2 {
            at2 = true;
        }
        if total == 4 {
            at4 = true;
        }
        let w = char_width(s[i]);
        proof {
            assert(s@.take(i + 1).drop_last() =~= s@.take(i as int));
        }
        total = total + w;
        i = i + 1;
        if total == 2 {
            at2 = true;
        }
        if total == 4 {
            at4 = true;
        }
        proof {
            assert(at2 == (exists|m: int| 0 <= m <= i && utf8_len(#[trigger] s@.take(m)) == 2)) by {
                if at2 {
                } else {
                    assert forall|m: int| 0 <= m <= i implies utf8_len(#[trigger] s@.take(m)) != 2 by {
                        if m == i {
                        } else {
                        }
                    }
                }
            }
            assert(at4 == (exists|m: int| 0 <= m <= i && utf8_len(#[trigger] s@.take(m)) == 4)) by {
                if at4 {
                } else {
                    assert forall|m: int| 0 <= m <= i implies utf8_len(#[trigger] s@.take(m)) != 4 by {
                        if m == i {
                        } else {
                        }
                    }
                }
            }
        }
    }
    assert(s@.take(n as int) =~= s@);
    total != 6 || (at2 && at4)
}

/// `value` when present, otherwise `default`.
pub open spec fn text_or(value: Option<String>, default: Seq<char>) -> Seq<char> {
    match value {
        Some(s) => s@,
        None => default,
    }
}

/// The color of a hex text, or `fallback` when the text is not a color.
pub open spec fn rgb_or(hex: Seq<char>, fallback: (u8, u8, u8)) -> (u8, u8, u8) {
    match hex_rgb(hex) {
        Some(c) => c,
        None => fallback,
    }
}

/// "r, g, b" in decimal.
pub open spec fn rgb_text(c: (u8, u8, u8)) -> Seq<char> {
    decimal(c.0 as nat) + ", "@ + decimal(c.1 as nat) + ", "@ + decimal(c.2 as nat)
}

pub const CSS_PART_0: &'static str = "\n:root {\n  @define-color destructive_color ";
pub const CSS_PART_1: &'static str = ";\n  @define-color destructive_bg_color ";
pub const CSS_PART_2: &'static str = ";\n  @define-color destructive_fg_color #ffffff;\n  --accent: ";
pub const CSS_PART_3: &'static str = ";\n  --accent-r: ";
pub const CSS_PART_4: &'static str = ";\n  --accent-g: ";
pub const CSS_PART_5: &'static str = ";\n  --accent-b: ";
pub const CSS_PART_6: &'static str = ";\n  --bg: ";
pub const CSS_PART_7: &'static str = ";\n  --dark-bg: ";
pub const CSS_PART_8: &'static str = ";\n  --lighter-bg: ";
pub const CSS_PART_9: &'static str = ";\n  --fg: ";
pub const CSS_PART_10: &'static str = ";\n  --muted: ";
pub const CSS_PART_11: &'static str = ";\n  --selection: ";
pub const CSS_PART_12: &'static str = ";\n  --window-bg: ";
pub const CSS_PART_13: &'static str = ";\n  --pill-bg: rgba(";
pub const CSS_PART_14: &'static str = ", 0.80);\n  --pill-border: rgba(255, 255, 255, 0.18);\n}\n\n/* Frosted translucent window background - desktop wallpaper slightly shows through with compositor blur */\nwindow.omaview-window,\nwindow.omaview-window.background {\n  background-color: rgba(";
pub const CSS_PART_15: &'static str = ", 0.80);\n  background-image: none;\n  color: var(--fg);\n}\n\nwindow.omaview-window > contents,\nstack,\nstack > widget,\n.omaview-main-box,\n.home-screen,\nscrolledwindow,\nscrolledwindow > viewport {\n  background-color: transparent;\n}\n\n.floating-pill {\n  background-color: rgba(";
pub const CSS_PART_16: &'static str = ", 0.82);\n  border: 1px solid rgba(255, 255, 255, 0.16);\n  border-radius: 14px;\n  box-shadow: 0 10px 32px rgba(0, 0, 0, 0.45);\n  padding: 4px 6px;\n}\n\n.floating-pill button {\n  min-width: 32px;\n  min-height: 32px;\n  padding: 5px;\n  border-radius: 8px;\n  border: 1.5px solid transparent;\n  background: transparent;\n  color: rgba(240, 243, 250, 0.82);\n  transition: all 120ms ease;\n}\n\n.floating-pill button:hover {\n  background-color: rgba(255, 255, 255, 0.14);\n  color: #ffffff;\n}\n\n.floating-pill button:active, .floating-pill button.active-highlight {\n  border: 1.5px solid var(--accent);\n  color: var(--accent);\n  background: rgba(";
pub const CSS_PART_17: &'static str = ", 0.12);\n}\n\n.zoom-indicator-box {\n  min-width: 26px;\n  min-height: 26px;\n  border-radius: 13px;\n  border: 1.5px solid rgba(255, 255, 255, 0.35);\n  padding: 0;\n}\n\n.zoom-indicator-box:hover {\n  border-color: var(--accent);\n}\n\n.zoom-indicator-dot {\n  min-width: 8px;\n  min-height: 8px;\n  border-radius: 4px;\n  background-color: var(--accent);\n}\n\n.nav-chevron-btn {\n  min-width: 36px;\n  min-height: 36px;\n  border-radius: 18px;\n  padding: 4px;\n  background-color: rgba(20, 25, 35, 0.45);\n  border: 1px solid rgba(255, 255, 255, 0.16);\n  box-shadow: 0 6px 18px rgba(0, 0, 0, 0.35);\n  color: rgba(255, 255, 255, 0.85);\n  transition: all 120ms ease;\n}\n\n.nav-chevron-btn:hover {\n  color: #ffffff;\n  background-color: rgba(255, 255, 255, 0.22);\n  border-color: rgba(255, 255, 255, 0.45);\n  box-shadow: 0 8px 22px rgba(0, 0, 0, 0.45);\n}\n\n.filmstrip-panel {\n  background-color: rgba(";
pub const CSS_PART_18: &'static str = ", 0.58);\n  background-image: linear-gradient(180deg, rgba(255, 255, 255, 0.08) 0%, transparent 40%, rgba(255, 255, 255, 0.04) 100%);\n  backdrop-filter: blur(16px);\n  border-left: 1px solid rgba(255, 255, 255, 0.20);\n  box-shadow: inset 1px 0 0 rgba(255, 255, 255, 0.15),\n              inset 0 1px 0 rgba(255, 255, 255, 0.35);\n}\n\n.filmstrip-scroll-btn {\n  min-height: 24px;\n  background: transparent;\n  border: none;\n  color: rgba(255, 255, 255, 0.40);\n  padding: 2px;\n}\n\n.filmstrip-scroll-btn:hover {\n  color: var(--accent);\n  background: rgba(255, 255, 255, 0.10);\n}\n\n.adjustments-panel {\n  background-color: rgba(";
pub const CSS_PART_19: &'static str = ", 0.82);\n  background-image: linear-gradient(135deg, rgba(255, 255, 255, 0.18) 0%, rgba(255, 255, 255, 0.02) 100%);\n  backdrop-filter: blur(18px);\n  border: 1px solid rgba(255, 255, 255, 0.28);\n  border-radius: 18px;\n  box-shadow: 0 20px 50px rgba(0, 0, 0, 0.65),\n              inset 0 1px 0 rgba(255, 255, 255, 0.60),\n              inset 0 -1px 0 rgba(255, 255, 255, 0.12);\n  padding: 16px;\n  color: var(--fg);\n}\n\n.adjustments-panel scale highlight {\n  background-color: var(--accent);\n}\n\n.exif-popover {\n  background-color: rgba(";
pub const CSS_PART_20: &'static str = ", 0.82);\n  background-image: linear-gradient(135deg, rgba(255, 255, 255, 0.18) 0%, rgba(255, 255, 255, 0.02) 100%);\n  backdrop-filter: blur(18px);\n  border: 1px solid rgba(255, 255, 255, 0.28);\n  border-radius: 18px;\n  box-shadow: 0 20px 50px rgba(0, 0, 0, 0.65),\n              inset 0 1px 0 rgba(255, 255, 255, 0.60),\n              inset 0 -1px 0 rgba(255, 255, 255, 0.12);\n  padding: 14px;\n  color: var(--fg);\n}\n\n.home-screen {\n  background-color: transparent;\n}\n\n.home-top-bar {\n  background: transparent;\n}\n\n.home-add-album-btn {\n  padding: 9px 26px;\n  border-radius: 9999px;\n  background-color: rgba(255, 255, 255, 0.10);\n  background-image: linear-gradient(135deg, rgba(255, 255, 255, 0.22) 0%, rgba(255, 255, 255, 0.03) 100%);\n  backdrop-filter: blur(16px);\n  border: 1px solid rgba(255, 255, 255, 0.32);\n  box-shadow: 0 12px 34px rgba(0, 0, 0, 0.40),\n              inset 0 1px 0 rgba(255, 255, 255, 0.65),\n              inset 0 -1px 0 rgba(255, 255, 255, 0.12);\n  color: #ffffff;\n}\n\n.home-add-album-btn:hover {\n  background-color: rgba(255, 255, 255, 0.18);\n  border-color: rgba(255, 255, 255, 0.48);\n  box-shadow: 0 14px 40px rgba(0, 0, 0, 0.48),\n              inset 0 1px 0 rgba(255, 255, 255, 0.80),\n              inset 0 -1px 0 rgba(255, 255, 255, 0.15);\n  color: #ffffff;\n}\n\n.home-add-btn-label {\n  font-weight: 600;\n  font-size: 13.5px;\n}\n\n.album-section {\n  background-color: rgba(255, 255, 255, 0.05);\n  background-image: linear-gradient(135deg, rgba(255, 255, 255, 0.12) 0%, rgba(255, 255, 255, 0.01) 70%, rgba(255, 255, 255, 0.05) 100%);\n  backdrop-filter: blur(16px);\n  border-radius: 20px;\n  padding: 18px 22px;\n  border: 1px solid rgba(255, 255, 255, 0.24);\n  box-shadow: 0 14px 38px rgba(0, 0, 0, 0.35),\n              inset 0 1px 0 rgba(255, 255, 255, 0.50),\n              inset 0 -1px 0 rgba(255, 255, 255, 0.08);\n}\n\n.album-header {\n  min-height: 32px;\n}\n\n.album-folder-icon {\n  color: var(--accent);\n}\n\n.album-title-label {\n  font-weight: 700;\n  font-size: 16px;\n  color: var(--fg);\n}\n\n.album-count-badge {\n  font-size: 11px;\n  font-weight: 600;\n  padding: 3px 10px;\n  border-radius: 9999px;\n  background-color: rgba(255, 255, 255, 0.08);\n  background-image: linear-gradient(135deg, rgba(255, 255, 255, 0.15) 0%, rgba(255, 255, 255, 0.02) 100%);\n  border: 1px solid rgba(255, 255, 255, 0.22);\n  box-shadow: inset 0 1px 0 rgba(255, 255, 255, 0.35);\n  color: rgba(255, 255, 255, 0.85);\n}\n\n.album-path-hint {\n  font-size: 11.5px;\n  margin-left: 8px;\n}\n\n.album-action-btn {\n  min-width: 28px;\n  min-height: 28px;\n  padding: 4px;\n  border-radius: 8px;\n  color: rgba(255, 255, 255, 0.50);\n  background: transparent;\n  border: none;\n}\n\n.album-action-btn:hover {\n  color: var(--accent);\n  background: rgba(255, 255, 255, 0.10);\n}\n\n.album-card {\n  padding: 5px;\n  border-radius: 16px;\n  background-color: transparent;\n  transition: all 180ms ease;\n}\n\n.album-card:hover {\n  background-color: rgba(255, 255, 255, 0.08);\n}\n\n.album-card-label {\n  font-size: 11.5px;\n  color: rgba(255, 255, 255, 0.75);\n}\n\n.top-bar-box {\n  background: transparent;\n}\n\n.nav-home-btn {\n  min-width: 36px;\n  min-height: 34px;\n  padding: 5px 10px;\n  border-radius: 10px;\n  background-color: rgba(";
pub const CSS_PART_21: &'static str = ", 0.75);\n  border: 1px solid rgba(255, 255, 255, 0.18);\n  box-shadow: 0 6px 20px rgba(0, 0, 0, 0.35);\n  color: rgba(230, 235, 245, 0.90);\n  transition: all 120ms ease;\n}\n\n.nav-home-btn:hover {\n  color: var(--accent);\n  background-color: rgba(255, 255, 255, 0.15);\n  border-color: rgba(255, 255, 255, 0.35);\n}\n\n.metadata-pill {\n  min-height: 34px;\n  background-color: rgba(";
pub const CSS_PART_22: &'static str = ", 0.75);\n  border: 1px solid rgba(255, 255, 255, 0.18);\n  border-radius: 10px;\n  box-shadow: 0 6px 20px rgba(0, 0, 0, 0.35);\n  padding: 5px 14px;\n  color: rgba(240, 243, 250, 0.95);\n  font-weight: 500;\n  font-size: 12px;\n}\n\n/* Crop pill and aspect ratio options at top center */\n.crop-pill {\n  background-color: rgba(";
pub const CSS_PART_23: &'static str = ", 0.82);\n  border: 1px solid rgba(255, 255, 255, 0.20);\n  border-radius: 9999px;\n  box-shadow: 0 12px 36px rgba(0, 0, 0, 0.50);\n  padding: 4px 10px;\n}\n\n.crop-icon {\n  color: var(--accent);\n  margin-right: 2px;\n  margin-left: 4px;\n}\n\n.crop-title-lbl {\n  font-weight: 600;\n  font-size: 12.5px;\n  color: rgba(255, 255, 255, 0.90);\n  margin-right: 4px;\n}\n\n.crop-ratio-btn {\n  padding: 4px 12px;\n  min-height: 28px;\n  border-radius: 9999px;\n  font-size: 12px;\n  font-weight: 500;\n  color: rgba(255, 255, 255, 0.80);\n  background: transparent;\n  border: 1px solid transparent;\n  transition: all 120ms ease;\n}\n\n.crop-ratio-btn:hover {\n  background-color: rgba(255, 255, 255, 0.14);\n  color: #ffffff;\n}\n\n.crop-ratio-btn.active-ratio {\n  background-color: var(--accent);\n  color: ";
pub const CSS_PART_24: &'static str = ";\n  border-color: var(--accent);\n  font-weight: 700;\n}\n\n.crop-apply-btn {\n  padding: 4px 14px;\n  min-height: 28px;\n  border-radius: 9999px;\n  font-size: 12px;\n  font-weight: 700;\n  background-color: rgba(";
pub const CSS_PART_25: &'static str = ", 0.35);\n  border: 1px solid var(--accent);\n  color: #ffffff;\n  transition: all 120ms ease;\n}\n\n.crop-apply-btn:hover {\n  background-color: var(--accent);\n  color: ";
pub const CSS_PART_26: &'static str = ";\n}\n\n.crop-cancel-btn {\n  min-width: 28px;\n  min-height: 28px;\n  padding: 4px;\n  border-radius: 14px;\n  color: rgba(255, 255, 255, 0.60);\n  background: transparent;\n}\n\n.crop-cancel-btn:hover {\n  color: #ffffff;\n  background-color: rgba(255, 255, 255, 0.16);\n}\n\n/* Save Changes Pill & Toolbar Button */\n.save-pill-btn {\n  min-height: 34px;\n  padding: 0 16px;\n  border-radius: 10px;\n  background-color: rgba(";
pub const CSS_PART_27: &'static str = ", 0.35);\n  border: 1px solid var(--accent);\n  box-shadow: 0 8px 24px rgba(0, 0, 0, 0.35), inset 0 1px 0 rgba(255, 255, 255, 0.35);\n  backdrop-filter: blur(16px);\n  color: #ffffff;\n  font-weight: 600;\n  font-size: 13px;\n  letter-spacing: 0.2px;\n  transition: all 150ms ease;\n}\n\n.save-pill-btn:hover {\n  background-color: var(--accent);\n  color: ";
pub const CSS_PART_28: &'static str = ";\n  box-shadow: 0 8px 28px rgba(0, 0, 0, 0.50);\n}\n\n.floating-pill button.toolbar-save-btn.active-save-highlight {\n  background-color: rgba(";
pub const CSS_PART_29: &'static str = ", 0.35);\n  border: 1px solid var(--accent);\n  color: var(--accent);\n}\n\n.floating-pill button.toolbar-save-btn.active-save-highlight:hover {\n  background-color: var(--accent);\n  color: ";
pub const CSS_PART_30: &'static str = ";\n}\n\n/* Dialog Action Buttons (Overwrite & Destructive Actions) - bright, solid presence matching suggested-action */\nbutton.destructive-action,\ndialog button.destructive-action,\nwindow.dialog button.destructive-action,\n.alert-dialog button.destructive-action {\n  background-color: ";
pub const CSS_PART_31: &'static str = ";\n  color: #ffffff;\n  font-weight: 600;\n  opacity: 1.0;\n  box-shadow: 0 2px 8px rgba(0, 0, 0, 0.30);\n}\n\nbutton.destructive-action:hover,\ndialog button.destructive-action:hover,\nwindow.dialog button.destructive-action:hover,\n.alert-dialog button.destructive-action:hover {\n  background-color: rgba(";
pub const CSS_PART_32: &'static str = ", 0.85);\n  color: #ffffff;\n  opacity: 1.0;\n}\n";

/// The application style sheet for the given theme values.
pub open spec fn css_text(
    accent: Seq<char>,
    bg: Seq<char>,
    dark_bg: Seq<char>,
    lighter_bg: Seq<char>,
    fg: Seq<char>,
    muted: Seq<char>,
    selection: Seq<char>,
    red: Seq<char>,
    a: (u8, u8, u8),
    d: (u8, u8, u8),
    r: (u8, u8, u8),
) -> Seq<char> {
    CSS_PART_0@
        + red
        + CSS_PART_1@
        + red
        + CSS_PART_2@
        + accent
        + CSS_PART_3@
        + decimal(a.0 as nat)
        + CSS_PART_4@
        + decimal(a.1 as nat)
        + CSS_PART_5@
        + decimal(a.2 as nat)
        + CSS_PART_6@
        + bg
        + CSS_PART_7@
        + dark_bg
        + CSS_PART_8@
        + lighter_bg
        + CSS_PART_9@
        + fg
        + CSS_PART_10@
        + muted
        + CSS_PART_11@
        + selection
        + CSS_PART_12@
        + dark_bg
        + CSS_PART_13@
        + rgb_text(d)
        + CSS_PART_14@
        + rgb_text(d)
        + CSS_PART_15@
        + rgb_text(d)
        + CSS_PART_16@
        + rgb_text(a)
        + CSS_PART_17@
        + rgb_text(d)
        + CSS_PART_18@
        + rgb_text(d)
        + CSS_PART_19@
        + rgb_text(d)
        + CSS_PART_20@
        + rgb_text(d)
        + CSS_PART_21@
        + rgb_text(d)
        + CSS_PART_22@
        + rgb_text(d)
        + CSS_PART_23@
        + dark_bg
        + CSS_PART_24@
        + rgb_text(a)
        + CSS_PART_25@
        + dark_bg
        + CSS_PART_26@
        + rgb_text(a)
        + CSS_PART_27@
        + dark_bg
        + CSS_PART_28@
        + rgb_text(a)
        + CSS_PART_29@
        + dark_bg
        + CSS_PART_30@
        + red
        + CSS_PART_31@
        + rgb_text(r)
        + CSS_PART_32@
}

/// The color texts a theme supplies, with the built-in Tokyo Night values in
/// place of missing ones: accent, background, dark background, lighter
/// background, foreground, muted, selection, red.
pub open spec fn theme_texts(colors: OmarchyColors) -> (Seq<char>, Seq<char>, Seq<char>, Seq<char>, Seq<char>, Seq<char>, Seq<char>, Seq<char>) {
    (
        text_or(colors.accent, "#7aa2f7"@),
        text_or(colors.background, "#1a1b26"@),
        text_or(colors.dark_background, "#13141c"@),
        text_or(colors.lighter_background, "#24283b"@),
        text_or(colors.foreground, "#a9b1d6"@),
        text_or(colors.muted, "#414868"@),
        text_or(colors.selection, "#292e42"@),
        text_or(colors.red, "#f7768e"@),
    )
}

/// True when every color that the style sheet reads as bytes can be cut
/// into its byte pairs.
pub open spec fn css_colors_readable(colors: OmarchyColors) -> bool {
    let t = theme_texts(colors);
    hex_color_splits(t.0) && hex_color_splits(t.2) && hex_color_splits(t.7)
}

/// The style sheet for a theme: the accent, dark background and red are
/// also written as byte triples (the accent's bytes once more, one by one,
/// as `--accent-r`, `--accent-g` and `--accent-b`), falling back to
/// (122, 163, 247), (18, 20, 28) and (247, 117, 143) when they are not colors.
pub open spec fn css_for(colors: OmarchyColors) -> Seq<char> {
    let t = theme_texts(colors);
    css_text(
        t.0,
        t.1,
        t.2,
        t.3,
        t.4,
        t.5,
        t.6,
        t.7,
        rgb_or(t.0, (122, 163, 247)),
        rgb_or(t.2, (18, 20, 28)),
        rgb_or(t.7, (247, 117, 143)),
    )
}

/// `x` appears in `s`.
pub open spec fn shows(s: Seq<char>, x: Seq<char>) -> bool {
    exists|i: int| 0 <= i && i + x.len() <= s.len() && #[trigger] s.subrange(i, i + x.len()) == x
}

/// A prefix of `a` stays a prefix when more is appended to `a`.
proof fn lemma_prefix_extends(a: Seq<char>, b: Seq<char>, k: Seq<char>)
    requires
        k.is_prefix_of(a),
    ensures
        k.is_prefix_of(a + b),
{
    assert((a + b).subrange(0, k.len() as int) =~= a.subrange(0, k.len() as int));
}

/// A prefix of a prefix is a prefix.
proof fn lemma_prefix_trans(k: Seq<char>, a: Seq<char>, s: Seq<char>)
    requires
        k.is_prefix_of(a),
        a.is_prefix_of(s),
    ensures
        k.is_prefix_of(s),
{
    assert(s.subrange(0, k.len() as int) =~= a.subrange(0, k.len() as int));
}

/// What appears at `i` in a prefix appears at `i` in the whole.
proof fn lemma_shows_in_prefix(k: Seq<char>, s: Seq<char>, x: Seq<char>, i: int)
    requires
        k.is_prefix_of(s),
        0 <= i,
        i + x.len() <= k.len(),
        k.subrange(i, i + x.len()) == x,
    ensures
        shows(s, x),
{
    assert(s.subrange(i, i + x.len()) =~= k.subrange(i, i + x.len()));
}

/// The style sheet up to the setting of `--window-bg`, with the other
/// theme variables before it.
pub open spec fn css_head(colors: OmarchyColors) -> Seq<char> {
    let t = theme_texts(colors);
    let ca = rgb_or(t.0, (122, 163, 247));
    CSS_PART_0@ + t.7 + CSS_PART_1@ + t.7 + CSS_PART_2@ + t.0 + CSS_PART_3@ + decimal(ca.0 as nat) + CSS_PART_4@ + decimal(ca.1 as nat) + CSS_PART_5@ + decimal(ca.2 as nat) + CSS_PART_6@ + t.1 + CSS_PART_7@ + t.2 + CSS_PART_8@ + t.3 + CSS_PART_9@ + t.4 + CSS_PART_10@ + t.5 + CSS_PART_11@ + t.6 + CSS_PART_12@ + t.2 + CSS_PART_13@
}

/// The style sheet starts with [`css_head`].
#[verifier::rlimit(30)]
proof fn lemma_css_head_is_prefix(colors: OmarchyColors)
    ensures
        css_head(colors).is_prefix_of(css_for(colors)),
{
    let t = theme_texts(colors);
    let ca = rgb_or(t.0, (122, 163, 247));
    let cd = rgb_or(t.2, (18, 20, 28));
    let cr = rgb_or(t.7, (247, 117, 143));
    let s = css_for(colors);
    let k0 = CSS_PART_0@;
    let k1 = k0 + t.7;
    let k2 = k1 + CSS_PART_1@;
    let k3 = k2 + t.7;
    let k4 = k3 + CSS_PART_2@;
    let k5 = k4 + t.0;
    let k6 = k5 + CSS_PART_3@;
    let k7 = k6 + decimal(ca.0 as nat);
    let k8 = k7 + CSS_PART_4@;
    let k9 = k8 + decimal(ca.1 as nat);
    let k10 = k9 + CSS_PART_5@;
    let k11 = k10 + decimal(ca.2 as nat);
    let k12 = k11 + CSS_PART_6@;
    let k13 = k12 + t.1;
    let k14 = k13 + CSS_PART_7@;
    let k15 = k14 + t.2;
    let k16 = k15 + CSS_PART_8@;
    let k17 = k16 + t.3;
    let k18 = k17 + CSS_PART_9@;
    let k19 = k18 + t.4;
    let k20 = k19 + CSS_PART_10@;
    let k21 = k20 + t.5;
    let k22 = k21 + CSS_PART_11@;
    let k23 = k22 + t.6;
    let k24 = k23 + CSS_PART_12@;
    let k25 = k24 + t.2;
    let k26 = k25 + CSS_PART_13@;
    let k27 = k26 + rgb_text(cd);
    let k28 = k27 + CSS_PART_14@;
    let k29 = k28 + rgb_text(cd);
    let k30 = k29 + CSS_PART_15@;
    let k31 = k30 + rgb_text(cd);
    let k32 = k31 + CSS_PART_16@;
    let k33 = k32 + rgb_text(ca);
    let k34 = k33 + CSS_PART_17@;
    let k35 = k34 + rgb_text(cd);
    let k36 = k35 + CSS_PART_18@;
    let k37 = k36 + rgb_text(cd);
    let k38 = k37 + CSS_PART_19@;
    let k39 = k38 + rgb_text(cd);
    let k40 = k39 + CSS_PART_20@;
    let k41 = k40 + rgb_text(cd);
    let k42 = k41 + CSS_PART_21@;
    let k43 = k42 + rgb_text(cd);
    let k44 = k43 + CSS_PART_22@;
    let k45 = k44 + rgb_text(cd);
    let k46 = k45 + CSS_PART_23@;
    let k47 = k46 + t.2;
    let k48 = k47 + CSS_PART_24@;
    let k49 = k48 + rgb_text(ca);
    let k50 = k49 + CSS_PART_25@;
    let k51 = k50 + t.2;
    let k52 = k51 + CSS_PART_26@;
    let k53 = k52 + rgb_text(ca);
    let k54 = k53 + CSS_PART_27@;
    let k55 = k54 + t.2;
    let k56 = k55 + CSS_PART_28@;
    let k57 = k56 + rgb_text(ca);
    let k58 = k57 + CSS_PART_29@;
    let k59 = k58 + t.2;
    let k60 = k59 + CSS_PART_30@;
    let k61 = k60 + t.7;
    let k62 = k61 + CSS_PART_31@;
    let k63 = k62 + rgb_text(cr);
    let k64 = k63 + CSS_PART_32@;
    assert(k26 == css_head(colors));
    assert(k26.is_prefix_of(k26));
    lemma_prefix_extends(k26, rgb_text(cd), k26);
    lemma_prefix_extends(k27, CSS_PART_14@, k26);
    lemma_prefix_extends(k28, rgb_text(cd), k26);
    lemma_prefix_extends(k29, CSS_PART_15@, k26);
    lemma_prefix_extends(k30, rgb_text(cd), k26);
    lemma_prefix_extends(k31, CSS_PART_16@, k26);
    lemma_prefix_extends(k32, rgb_text(ca), k26);
    lemma_prefix_extends(k33, CSS_PART_17@, k26);
    lemma_prefix_extends(k34, rgb_text(cd), k26);
    lemma_prefix_extends(k35, CSS_PART_18@, k26);
    lemma_prefix_extends(k36, rgb_text(cd), k26);
    lemma_prefix_extends(k37, CSS_PART_19@, k26);
    lemma_prefix_extends(k38, rgb_text(cd), k26);
    lemma_prefix_extends(k39, CSS_PART_20@, k26);
    lemma_prefix_extends(k40, rgb_text(cd), k26);
    lemma_prefix_extends(k41, CSS_PART_21@, k26);
    lemma_prefix_extends(k42, rgb_text(cd), k26);
    lemma_prefix_extends(k43, CSS_PART_22@, k26);
    lemma_prefix_extends(k44, rgb_text(cd), k26);
    lemma_prefix_extends(k45, CSS_PART_23@, k26);
    lemma_prefix_extends(k46, t.2, k26);
    lemma_prefix_extends(k47, CSS_PART_24@, k26);
    lemma_prefix_extends(k48, rgb_text(ca), k26);
    lemma_prefix_extends(k49, CSS_PART_25@, k26);
    lemma_prefix_extends(k50, t.2, k26);
    lemma_prefix_extends(k51, CSS_PART_26@, k26);
    lemma_prefix_extends(k52, rgb_text(ca), k26);
    lemma_prefix_extends(k53, CSS_PART_27@, k26);
    lemma_prefix_extends(k54, t.2, k26);
    lemma_prefix_extends(k55, CSS_PART_28@, k26);
    lemma_prefix_extends(k56, rgb_text(ca), k26);
    lemma_prefix_extends(k57, CSS_PART_29@, k26);
    lemma_prefix_extends(k58, t.2, k26);
    lemma_prefix_extends(k59, CSS_PART_30@, k26);
    lemma_prefix_extends(k60, t.7, k26);
    lemma_prefix_extends(k61, CSS_PART_31@, k26);
    lemma_prefix_extends(k62, rgb_text(cr), k26);
    lemma_prefix_extends(k63, CSS_PART_32@, k26);
    assert(k64 == s);
}

proof fn lemma_css_sets_accent(colors: OmarchyColors)
    ensures
        shows(css_for(colors), "--accent: "@ + theme_texts(colors).0 + ";"@),
{
    reveal_strlit(";\n  @define-color destructive_fg_color #ffffff;\n  --accent: ");
    reveal_strlit(";\n  --accent-r: ");
    reveal_strlit("--accent: ");
    reveal_strlit(";");
    let t = theme_texts(colors);
    let ca = rgb_or(t.0, (122, 163, 247));
    let s = css_for(colors);
    let k0 = CSS_PART_0@;
    let k1 = k0 + t.7;
    let k2 = k1 + CSS_PART_1@;
    let k3 = k2 + t.7;
    let k4 = k3 + CSS_PART_2@;
    let k5 = k4 + t.0;
    let k6 = k5 + CSS_PART_3@;
    let k7 = k6 + decimal(ca.0 as nat);
    let k8 = k7 + CSS_PART_4@;
    let k9 = k8 + decimal(ca.1 as nat);
    let k10 = k9 + CSS_PART_5@;
    let k11 = k10 + decimal(ca.2 as nat);
    let k12 = k11 + CSS_PART_6@;
    let k13 = k12 + t.1;
    let k14 = k13 + CSS_PART_7@;
    let k15 = k14 + t.2;
    let k16 = k15 + CSS_PART_8@;
    let k17 = k16 + t.3;
    let k18 = k17 + CSS_PART_9@;
    let k19 = k18 + t.4;
    let k20 = k19 + CSS_PART_10@;
    let k21 = k20 + t.5;
    let k22 = k21 + CSS_PART_11@;
    let k23 = k22 + t.6;
    let k24 = k23 + CSS_PART_12@;
    let k25 = k24 + t.2;
    let k26 = k25 + CSS_PART_13@;
    let i = k4.len() - 10;
    let x = "--accent: "@ + t.0 + ";"@;
    assert(k4.subrange(i, k4.len() as int) =~= "--accent: "@);
    assert(k6.subrange(i, i + x.len()) =~= x);
    assert(k6.is_prefix_of(k6));
    lemma_prefix_extends(k6, decimal(ca.0 as nat), k6);
    lemma_prefix_extends(k7, CSS_PART_4@, k6);
    lemma_prefix_extends(k8, decimal(ca.1 as nat), k6);
    lemma_prefix_extends(k9, CSS_PART_5@, k6);
    lemma_prefix_extends(k10, decimal(ca.2 as nat), k6);
    lemma_prefix_extends(k11, CSS_PART_6@, k6);
    lemma_prefix_extends(k12, t.1, k6);
    lemma_prefix_extends(k13, CSS_PART_7@, k6);
    lemma_prefix_extends(k14, t.2, k6);
    lemma_prefix_extends(k15, CSS_PART_8@, k6);
    lemma_prefix_extends(k16, t.3, k6);
    lemma_prefix_extends(k17, CSS_PART_9@, k6);
    lemma_prefix_extends(k18, t.4, k6);
    lemma_prefix_extends(k19, CSS_PART_10@, k6);
    lemma_prefix_extends(k20, t.5, k6);
    lemma_prefix_extends(k21, CSS_PART_11@, k6);
    lemma_prefix_extends(k22, t.6, k6);
    lemma_prefix_extends(k23, CSS_PART_12@, k6);
    lemma_prefix_extends(k24, t.2, k6);
    lemma_prefix_extends(k25, CSS_PART_13@, k6);
    assert(k26 == css_head(colors));
    lemma_css_head_is_prefix(colors);
    lemma_prefix_trans(k6, k26, s);
    lemma_shows_in_prefix(k6, s, x, i);
}

/// The style sheet writes the accent's red byte as `--accent-r`.
proof fn lemma_css_sets_accent_r(colors: OmarchyColors)
    ensures
        shows(css_for(colors), "--accent-r: "@ + decimal(rgb_or(theme_texts(colors).0, (122, 163, 247)).0 as nat) + ";"@),
{
    reveal_strlit(";\n  --accent-r: ");
    reveal_strlit(";\n  --accent-g: ");
    reveal_strlit("--accent-r: ");
    reveal_strlit(";");
    let t = theme_texts(colors);
    let ca = rgb_or(t.0, (122, 163, 247));
    let s = css_for(colors);
    let k0 = CSS_PART_0@;
    let k1 = k0 + t.7;
    let k2 = k1 + CSS_PART_1@;
    let k3 = k2 + t.7;
    let k4 = k3 + CSS_PART_2@;
    let k5 = k4 + t.0;
    let k6 = k5 + CSS_PART_3@;
    let k7 = k6 + decimal(ca.0 as nat);
    let k8 = k7 + CSS_PART_4@;
    let k9 = k8 + decimal(ca.1 as nat);
    let k10 = k9 + CSS_PART_5@;
    let k11 = k10 + decimal(ca.2 as nat);
    let k12 = k11 + CSS_PART_6@;
    let k13 = k12 + t.1;
    let k14 = k13 + CSS_PART_7@;
    let k15 = k14 + t.2;
    let k16 = k15 + CSS_PART_8@;
    let k17 = k16 + t.3;
    let k18 = k17 + CSS_PART_9@;
    let k19 = k18 + t.4;
    let k20 = k19 + CSS_PART_10@;
    let k21 = k20 + t.5;
    let k22 = k21 + CSS_PART_11@;
    let k23 = k22 + t.6;
    let k24 = k23 + CSS_PART_12@;
    let k25 = k24 + t.2;
    let k26 = k25 + CSS_PART_13@;
    let i = k6.len() - 12;
    let x = "--accent-r: "@ + decimal(ca.0 as nat) + ";"@;
    assert(k6.subrange(i, k6.len() as int) =~= "--accent-r: "@);
    assert(k8.subrange(i, i + x.len()) =~= x);
    assert(k8.is_prefix_of(k8));
    lemma_prefix_extends(k8, decimal(ca.1 as nat), k8);
    lemma_prefix_extends(k9, CSS_PART_5@, k8);
    lemma_prefix_extends(k10, decimal(ca.2 as nat), k8);
    lemma_prefix_extends(k11, CSS_PART_6@, k8);
    lemma_prefix_extends(k12, t.1, k8);
    lemma_prefix_extends(k13, CSS_PART_7@, k8);
    lemma_prefix_extends(k14, t.2, k8);
    lemma_prefix_extends(k15, CSS_PART_8@, k8);
    lemma_prefix_extends(k16, t.3, k8);
    lemma_prefix_extends(k17, CSS_PART_9@, k8);
    lemma_prefix_extends(k18, t.4, k8);
    lemma_prefix_extends(k19, CSS_PART_10@, k8);
    lemma_prefix_extends(k20, t.5, k8);
    lemma_prefix_extends(k21, CSS_PART_11@, k8);
    lemma_prefix_extends(k22, t.6, k8);
    lemma_prefix_extends(k23, CSS_PART_12@, k8);
    lemma_prefix_extends(k24, t.2, k8);
    lemma_prefix_extends(k25, CSS_PART_13@, k8);
    assert(k26 == css_head(colors));
    lemma_css_head_is_prefix(colors);
    lemma_prefix_trans(k8, k26, s);
    lemma_shows_in_prefix(k8, s, x, i);
}

/// The style sheet writes the accent's green byte as `--accent-g`.
proof fn lemma_css_sets_accent_g(colors: OmarchyColors)
    ensures
        shows(css_for(colors), "--accent-g: "@ + decimal(rgb_or(theme_texts(colors).0, (122, 163, 247)).1 as nat) + ";"@),
{
    reveal_strlit(";\n  --accent-g: ");
    reveal_strlit(";\n  --accent-b: ");
    reveal_strlit("--accent-g: ");
    reveal_strlit(";");
    let t = theme_texts(colors);
    let ca = rgb_or(t.0, (122, 163, 247));
    let s = css_for(colors);
    let k0 = CSS_PART_0@;
    let k1 = k0 + t.7;
    let k2 = k1 + CSS_PART_1@;
    let k3 = k2 + t.7;
    let k4 = k3 + CSS_PART_2@;
    let k5 = k4 + t.0;
    let k6 = k5 + CSS_PART_3@;
    let k7 = k6 + decimal(ca.0 as nat);
    let k8 = k7 + CSS_PART_4@;
    let k9 = k8 + decimal(ca.1 as nat);
    let k10 = k9 + CSS_PART_5@;
    let k11 = k10 + decimal(ca.2 as nat);
    let k12 = k11 + CSS_PART_6@;
    let k13 = k12 + t.1;
    let k14 = k13 + CSS_PART_7@;
    let k15 = k14 + t.2;
    let k16 = k15 + CSS_PART_8@;
    let k17 = k16 + t.3;
    let k18 = k17 + CSS_PART_9@;
    let k19 = k18 + t.4;
    let k20 = k19 + CSS_PART_10@;
    let k21 = k20 + t.5;
    let k22 = k21 + CSS_PART_11@;
    let k23 = k22 + t.6;
    let k24 = k23 + CSS_PART_12@;
    let k25 = k24 + t.2;
    let k26 = k25 + CSS_PART_13@;
    let i = k8.len() - 12;
    let x = "--accent-g: "@ + decimal(ca.1 as nat) + ";"@;
    assert(k8.subrange(i, k8.len() as int) =~= "--accent-g: "@);
    assert(k10.subrange(i, i + x.len()) =~= x);
    assert(k10.is_prefix_of(k10));
    lemma_prefix_extends(k10, decimal(ca.2 as nat), k10);
    lemma_prefix_extends(k11, CSS_PART_6@, k10);
    lemma_prefix_extends(k12, t.1, k10);
    lemma_prefix_extends(k13, CSS_PART_7@, k10);
    lemma_prefix_extends(k14, t.2, k10);
    lemma_prefix_extends(k15, CSS_PART_8@, k10);
    lemma_prefix_extends(k16, t.3, k10);
    lemma_prefix_extends(k17, CSS_PART_9@, k10);
    lemma_prefix_extends(k18, t.4, k10);
    lemma_prefix_extends(k19, CSS_PART_10@, k10);
    lemma_prefix_extends(k20, t.5, k10);
    lemma_prefix_extends(k21, CSS_PART_11@, k10);
    lemma_prefix_extends(k22, t.6, k10);
    lemma_prefix_extends(k23, CSS_PART_12@, k10);
    lemma_prefix_extends(k24, t.2, k10);
    lemma_prefix_extends(k25, CSS_PART_13@, k10);
    assert(k26 == css_head(colors));
    lemma_css_head_is_prefix(colors);
    lemma_prefix_trans(k10, k26, s);
    lemma_shows_in_prefix(k10, s, x, i);
}

/// The style sheet writes the accent's blue byte as `--accent-b`.
proof fn lemma_css_sets_accent_b(colors: OmarchyColors)
    ensures
        shows(css_for(colors), "--accent-b: "@ + decimal(rgb_or(theme_texts(colors).0, (122, 163, 247)).2 as nat) + ";"@),
{
    reveal_strlit(";\n  --accent-b: ");
    reveal_strlit(";\n  --bg: ");
    reveal_strlit("--accent-b: ");
    reveal_strlit(";");
    let t = theme_texts(colors);
    let ca = rgb_or(t.0, (122, 163, 247));
    let s = css_for(colors);
    let k0 = CSS_PART_0@;
    let k1 = k0 + t.7;
    let k2 = k1 + CSS_PART_1@;
    let k3 = k2 + t.7;
    let k4 = k3 + CSS_PART_2@;
    let k5 = k4 + t.0;
    let k6 = k5 + CSS_PART_3@;
    let k7 = k6 + decimal(ca.0 as nat);
    let k8 = k7 + CSS_PART_4@;
    let k9 = k8 + decimal(ca.1 as nat);
    let k10 = k9 + CSS_PART_5@;
    let k11 = k10 + decimal(ca.2 as nat);
    let k12 = k11 + CSS_PART_6@;
    let k13 = k12 + t.1;
    let k14 = k13 + CSS_PART_7@;
    let k15 = k14 + t.2;
    let k16 = k15 + CSS_PART_8@;
    let k17 = k16 + t.3;
    let k18 = k17 + CSS_PART_9@;
    let k19 = k18 + t.4;
    let k20 = k19 + CSS_PART_10@;
    let k21 = k20 + t.5;
    let k22 = k21 + CSS_PART_11@;
    let k23 = k22 + t.6;
    let k24 = k23 + CSS_PART_12@;
    let k25 = k24 + t.2;
    let k26 = k25 + CSS_PART_13@;
    let i = k10.len() - 12;
    let x = "--accent-b: "@ + decimal(ca.2 as nat) + ";"@;
    assert(k10.subrange(i, k10.len() as int) =~= "--accent-b: "@);
    assert(k12.subrange(i, i + x.len()) =~= x);
    assert(k12.is_prefix_of(k12));
    lemma_prefix_extends(k12, t.1, k12);
    lemma_prefix_extends(k13, CSS_PART_7@, k12);
    lemma_prefix_extends(k14, t.2, k12);
    lemma_prefix_extends(k15, CSS_PART_8@, k12);
    lemma_prefix_extends(k16, t.3, k12);
    lemma_prefix_extends(k17, CSS_PART_9@, k12);
    lemma_prefix_extends(k18, t.4, k12);
    lemma_prefix_extends(k19, CSS_PART_10@, k12);
    lemma_prefix_extends(k20, t.5, k12);
    lemma_prefix_extends(k21, CSS_PART_11@, k12);
    lemma_prefix_extends(k22, t.6, k12);
    lemma_prefix_extends(k23, CSS_PART_12@, k12);
    lemma_prefix_extends(k24, t.2, k12);
    lemma_prefix_extends(k25, CSS_PART_13@, k12);
    assert(k26 == css_head(colors));
    lemma_css_head_is_prefix(colors);
    lemma_prefix_trans(k12, k26, s);
    lemma_shows_in_prefix(k12, s, x, i);
}

proof fn lemma_css_sets_bg(colors: OmarchyColors)
    ensures
        shows(css_for(colors), "--bg: "@ + theme_texts(colors).1 + ";"@),
{
    reveal_strlit(";\n  --bg: ");
    reveal_strlit(";\n  --dark-bg: ");
    reveal_strlit("--bg: ");
    reveal_strlit(";");
    let t = theme_texts(colors);
    let ca = rgb_or(t.0, (122, 163, 247));
    let s = css_for(colors);
    let k0 = CSS_PART_0@;
    let k1 = k0 + t.7;
    let k2 = k1 + CSS_PART_1@;
    let k3 = k2 + t.7;
    let k4 = k3 + CSS_PART_2@;
    let k5 = k4 + t.0;
    let k6 = k5 + CSS_PART_3@;
    let k7 = k6 + decimal(ca.0 as nat);
    let k8 = k7 + CSS_PART_4@;
    let k9 = k8 + decimal(ca.1 as nat);
    let k10 = k9 + CSS_PART_5@;
    let k11 = k10 + decimal(ca.2 as nat);
    let k12 = k11 + CSS_PART_6@;
    let k13 = k12 + t.1;
    let k14 = k13 + CSS_PART_7@;
    let k15 = k14 + t.2;
    let k16 = k15 + CSS_PART_8@;
    let k17 = k16 + t.3;
    let k18 = k17 + CSS_PART_9@;
    let k19 = k18 + t.4;
    let k20 = k19 + CSS_PART_10@;
    let k21 = k20 + t.5;
    let k22 = k21 + CSS_PART_11@;
    let k23 = k22 + t.6;
    let k24 = k23 + CSS_PART_12@;
    let k25 = k24 + t.2;
    let k26 = k25 + CSS_PART_13@;
    let i = k12.len() - 6;
    let x = "--bg: "@ + t.1 + ";"@;
    assert(k12.subrange(i, k12.len() as int) =~= "--bg: "@);
    assert(k14.subrange(i, i + x.len()) =~= x);
    assert(k14.is_prefix_of(k14));
    lemma_prefix_extends(k14, t.2, k14);
    lemma_prefix_extends(k15, CSS_PART_8@, k14);
    lemma_prefix_extends(k16, t.3, k14);
    lemma_prefix_extends(k17, CSS_PART_9@, k14);
    lemma_prefix_extends(k18, t.4, k14);
    lemma_prefix_extends(k19, CSS_PART_10@, k14);
    lemma_prefix_extends(k20, t.5, k14);
    lemma_prefix_extends(k21, CSS_PART_11@, k14);
    lemma_prefix_extends(k22, t.6, k14);
    lemma_prefix_extends(k23, CSS_PART_12@, k14);
    lemma_prefix_extends(k24, t.2, k14);
    lemma_prefix_extends(k25, CSS_PART_13@, k14);
    assert(k26 == css_head(colors));
    lemma_css_head_is_prefix(colors);
    lemma_prefix_trans(k14, k26, s);
    lemma_shows_in_prefix(k14, s, x, i);
}

proof fn lemma_css_sets_dark_bg(colors: OmarchyColors)
    ensures
        shows(css_for(colors), "--dark-bg: "@ + theme_texts(colors).2 + ";"@),
{
    reveal_strlit(";\n  --dark-bg: ");
    reveal_strlit(";\n  --lighter-bg: ");
    reveal_strlit("--dark-bg: ");
    reveal_strlit(";");
    let t = theme_texts(colors);
    let ca = rgb_or(t.0, (122, 163, 247));
    let s = css_for(colors);
    let k0 = CSS_PART_0@;
    let k1 = k0 + t.7;
    let k2 = k1 + CSS_PART_1@;
    let k3 = k2 + t.7;
    let k4 = k3 + CSS_PART_2@;
    let k5 = k4 + t.0;
    let k6 = k5 + CSS_PART_3@;
    let k7 = k6 + decimal(ca.0 as nat);
    let k8 = k7 + CSS_PART_4@;
    let k9 = k8 + decimal(ca.1 as nat);
    let k10 = k9 + CSS_PART_5@;
    let k11 = k10 + decimal(ca.2 as nat);
    let k12 = k11 + CSS_PART_6@;
    let k13 = k12 + t.1;
    let k14 = k13 + CSS_PART_7@;
    let k15 = k14 + t.2;
    let k16 = k15 + CSS_PART_8@;
    let k17 = k16 + t.3;
    let k18 = k17 + CSS_PART_9@;
    let k19 = k18 + t.4;
    let k20 = k19 + CSS_PART_10@;
    let k21 = k20 + t.5;
    let k22 = k21 + CSS_PART_11@;
    let k23 = k22 + t.6;
    let k24 = k23 + CSS_PART_12@;
    let k25 = k24 + t.2;
    let k26 = k25 + CSS_PART_13@;
    let i = k14.len() - 11;
    let x = "--dark-bg: "@ + t.2 + ";"@;
    assert(k14.subrange(i, k14.len() as int) =~= "--dark-bg: "@);
    assert(k16.subrange(i, i + x.len()) =~= x);
    assert(k16.is_prefix_of(k16));
    lemma_prefix_extends(k16, t.3, k16);
    lemma_prefix_extends(k17, CSS_PART_9@, k16);
    lemma_prefix_extends(k18, t.4, k16);
    lemma_prefix_extends(k19, CSS_PART_10@, k16);
    lemma_prefix_extends(k20, t.5, k16);
    lemma_prefix_extends(k21, CSS_PART_11@, k16);
    lemma_prefix_extends(k22, t.6, k16);
    lemma_prefix_extends(k23, CSS_PART_12@, k16);
    lemma_prefix_extends(k24, t.2, k16);
    lemma_prefix_extends(k25, CSS_PART_13@, k16);
    assert(k26 == css_head(colors));
    lemma_css_head_is_prefix(colors);
    lemma_prefix_trans(k16, k26, s);
    lemma_shows_in_prefix(k16, s, x, i);
}

proof fn lemma_css_sets_lighter_bg(colors: OmarchyColors)
    ensures
        shows(css_for(colors), "--lighter-bg: "@ + theme_texts(colors).3 + ";"@),
{
    reveal_strlit(";\n  --lighter-bg: ");
    reveal_strlit(";\n  --fg: ");
    reveal_strlit("--lighter-bg: ");
    reveal_strlit(";");
    let t = theme_texts(colors);
    let ca = rgb_or(t.0, (122, 163, 247));
    let s = css_for(colors);
    let k0 = CSS_PART_0@;
    let k1 = k0 + t.7;
    let k2 = k1 + CSS_PART_1@;
    let k3 = k2 + t.7;
    let k4 = k3 + CSS_PART_2@;
    let k5 = k4 + t.0;
    let k6 = k5 + CSS_PART_3@;
    let k7 = k6 + decimal(ca.0 as nat);
    let k8 = k7 + CSS_PART_4@;
    let k9 = k8 + decimal(ca.1 as nat);
    let k10 = k9 + CSS_PART_5@;
    let k11 = k10 + decimal(ca.2 as nat);
    let k12 = k11 + CSS_PART_6@;
    let k13 = k12 + t.1;
    let k14 = k13 + CSS_PART_7@;
    let k15 = k14 + t.2;
    let k16 = k15 + CSS_PART_8@;
    let k17 = k16 + t.3;
    let k18 = k17 + CSS_PART_9@;
    let k19 = k18 + t.4;
    let k20 = k19 + CSS_PART_10@;
    let k21 = k20 + t.5;
    let k22 = k21 + CSS_PART_11@;
    let k23 = k22 + t.6;
    let k24 = k23 + CSS_PART_12@;
    let k25 = k24 + t.2;
    let k26 = k25 + CSS_PART_13@;
    let i = k16.len() - 14;
    let x = "--lighter-bg: "@ + t.3 + ";"@;
    assert(k16.subrange(i, k16.len() as int) =~= "--lighter-bg: "@);
    assert(k18.subrange(i, i + x.len()) =~= x);
    assert(k18.is_prefix_of(k18));
    lemma_prefix_extends(k18, t.4, k18);
    lemma_prefix_extends(k19, CSS_PART_10@, k18);
    lemma_prefix_extends(k20, t.5, k18);
    lemma_prefix_extends(k21, CSS_PART_11@, k18);
    lemma_prefix_extends(k22, t.6, k18);
    lemma_prefix_extends(k23, CSS_PART_12@, k18);
    lemma_prefix_extends(k24, t.2, k18);
    lemma_prefix_extends(k25, CSS_PART_13@, k18);
    assert(k26 == css_head(colors));
    lemma_css_head_is_prefix(colors);
    lemma_prefix_trans(k18, k26, s);
    lemma_shows_in_prefix(k18, s, x, i);
}

proof fn lemma_css_sets_fg(colors: OmarchyColors)
    ensures
        shows(css_for(colors), "--fg: "@ + theme_texts(colors).4 + ";"@),
{
    reveal_strlit(";\n  --fg: ");
    reveal_strlit(";\n  --muted: ");
    reveal_strlit("--fg: ");
    reveal_strlit(";");
    let t = theme_texts(colors);
    let ca = rgb_or(t.0, (122, 163, 247));
    let s = css_for(colors);
    let k0 = CSS_PART_0@;
    let k1 = k0 + t.7;
    let k2 = k1 + CSS_PART_1@;
    let k3 = k2 + t.7;
    let k4 = k3 + CSS_PART_2@;
    let k5 = k4 + t.0;
    let k6 = k5 + CSS_PART_3@;
    let k7 = k6 + decimal(ca.0 as nat);
    let k8 = k7 + CSS_PART_4@;
    let k9 = k8 + decimal(ca.1 as nat);
    let k10 = k9 + CSS_PART_5@;
    let k11 = k10 + decimal(ca.2 as nat);
    let k12 = k11 + CSS_PART_6@;
    let k13 = k12 + t.1;
    let k14 = k13 + CSS_PART_7@;
    let k15 = k14 + t.2;
    let k16 = k15 + CSS_PART_8@;
    let k17 = k16 + t.3;
    let k18 = k17 + CSS_PART_9@;
    let k19 = k18 + t.4;
    let k20 = k19 + CSS_PART_10@;
    let k21 = k20 + t.5;
    let k22 = k21 + CSS_PART_11@;
    let k23 = k22 + t.6;
    let k24 = k23 + CSS_PART_12@;
    let k25 = k24 + t.2;
    let k26 = k25 + CSS_PART_13@;
    let i = k18.len() - 6;
    let x = "--fg: "@ + t.4 + ";"@;
    assert(k18.subrange(i, k18.len() as int) =~= "--fg: "@);
    assert(k20.subrange(i, i + x.len()) =~= x);
    assert(k20.is_prefix_of(k20));
    lemma_prefix_extends(k20, t.5, k20);
    lemma_prefix_extends(k21, CSS_PART_11@, k20);
    lemma_prefix_extends(k22, t.6, k20);
    lemma_prefix_extends(k23, CSS_PART_12@, k20);
    lemma_prefix_extends(k24, t.2, k20);
    lemma_prefix_extends(k25, CSS_PART_13@, k20);
    assert(k26 == css_head(colors));
    lemma_css_head_is_prefix(colors);
    lemma_prefix_trans(k20, k26, s);
    lemma_shows_in_prefix(k20, s, x, i);
}

proof fn lemma_css_sets_muted(colors: OmarchyColors)
    ensures
        shows(css_for(colors), "--muted: "@ + theme_texts(colors).5 + ";"@),
{
    reveal_strlit(";\n  --muted: ");
    reveal_strlit(";\n  --selection: ");
    reveal_strlit("--muted: ");
    reveal_strlit(";");
    let t = theme_texts(colors);
    let ca = rgb_or(t.0, (122, 163, 247));
    let s = css_for(colors);
    let k0 = CSS_PART_0@;
    let k1 = k0 + t.7;
    let k2 = k1 + CSS_PART_1@;
    let k3 = k2 + t.7;
    let k4 = k3 + CSS_PART_2@;
    let k5 = k4 + t.0;
    let k6 = k5 + CSS_PART_3@;
    let k7 = k6 + decimal(ca.0 as nat);
    let k8 = k7 + CSS_PART_4@;
    let k9 = k8 + decimal(ca.1 as nat);
    let k10 = k9 + CSS_PART_5@;
    let k11 = k10 + decimal(ca.2 as nat);
    let k12 = k11 + CSS_PART_6@;
    let k13 = k12 + t.1;
    let k14 = k13 + CSS_PART_7@;
    let k15 = k14 + t.2;
    let k16 = k15 + CSS_PART_8@;
    let k17 = k16 + t.3;
    let k18 = k17 + CSS_PART_9@;
    let k19 = k18 + t.4;
    let k20 = k19 + CSS_PART_10@;
    let k21 = k20 + t.5;
    let k22 = k21 + CSS_PART_11@;
    let k23 = k22 + t.6;
    let k24 = k23 + CSS_PART_12@;
    let k25 = k24 + t.2;
    let k26 = k25 + CSS_PART_13@;
    let i = k20.len() - 9;
    let x = "--muted: "@ + t.5 + ";"@;
    assert(k20.subrange(i, k20.len() as int) =~= "--muted: "@);
    assert(k22.subrange(i, i + x.len()) =~= x);
    assert(k22.is_prefix_of(k22));
    lemma_prefix_extends(k22, t.6, k22);
    lemma_prefix_extends(k23, CSS_PART_12@, k22);
    lemma_prefix_extends(k24, t.2, k22);
    lemma_prefix_extends(k25, CSS_PART_13@, k22);
    assert(k26 == css_head(colors));
    lemma_css_head_is_prefix(colors);
    lemma_prefix_trans(k22, k26, s);
    lemma_shows_in_prefix(k22, s, x, i);
}

proof fn lemma_css_sets_selection(colors: OmarchyColors)
    ensures
        shows(css_for(colors), "--selection: "@ + theme_texts(colors).6 + ";"@),
{
    reveal_strlit(";\n  --selection: ");
    reveal_strlit(";\n  --window-bg: ");
    reveal_strlit("--selection: ");
    reveal_strlit(";");
    let t = theme_texts(colors);
    let ca = rgb_or(t.0, (122, 163, 247));
    let s = css_for(colors);
    let k0 = CSS_PART_0@;
    let k1 = k0 + t.7;
    let k2 = k1 + CSS_PART_1@;
    let k3 = k2 + t.7;
    let k4 = k3 + CSS_PART_2@;
    let k5 = k4 + t.0;
    let k6 = k5 + CSS_PART_3@;
    let k7 = k6 + decimal(ca.0 as nat);
    let k8 = k7 + CSS_PART_4@;
    let k9 = k8 + decimal(ca.1 as nat);
    let k10 = k9 + CSS_PART_5@;
    let k11 = k10 + decimal(ca.2 as nat);
    let k12 = k11 + CSS_PART_6@;
    let k13 = k12 + t.1;
    let k14 = k13 + CSS_PART_7@;
    let k15 = k14 + t.2;
    let k16 = k15 + CSS_PART_8@;
    let k17 = k16 + t.3;
    let k18 = k17 + CSS_PART_9@;
    let k19 = k18 + t.4;
    let k20 = k19 + CSS_PART_10@;
    let k21 = k20 + t.5;
    let k22 = k21 + CSS_PART_11@;
    let k23 = k22 + t.6;
    let k24 = k23 + CSS_PART_12@;
    let k25 = k24 + t.2;
    let k26 = k25 + CSS_PART_13@;
    let i = k22.len() - 13;
    let x = "--selection: "@ + t.6 + ";"@;
    assert(k22.subrange(i, k22.len() as int) =~= "--selection: "@);
    assert(k24.subrange(i, i + x.len()) =~= x);
    assert(k24.is_prefix_of(k24));
    lemma_prefix_extends(k24, t.2, k24);
    lemma_prefix_extends(k25, CSS_PART_13@, k24);
    assert(k26 == css_head(colors));
    lemma_css_head_is_prefix(colors);
    lemma_prefix_trans(k24, k26, s);
    lemma_shows_in_prefix(k24, s, x, i);
}

proof fn lemma_css_sets_window_bg(colors: OmarchyColors)
    ensures
        shows(css_for(colors), "--window-bg: "@ + theme_texts(colors).2 + ";"@),
{
    reveal_strlit(";\n  --window-bg: ");
    reveal_strlit(";\n  --pill-bg: rgba(");
    reveal_strlit("--window-bg: ");
    reveal_strlit(";");
    let t = theme_texts(colors);
    let ca = rgb_or(t.0, (122, 163, 247));
    let s = css_for(colors);
    let k0 = CSS_PART_0@;
    let k1 = k0 + t.7;
    let k2 = k1 + CSS_PART_1@;
    let k3 = k2 + t.7;
    let k4 = k3 + CSS_PART_2@;
    let k5 = k4 + t.0;
    let k6 = k5 + CSS_PART_3@;
    let k7 = k6 + decimal(ca.0 as nat);
    let k8 = k7 + CSS_PART_4@;
    let k9 = k8 + decimal(ca.1 as nat);
    let k10 = k9 + CSS_PART_5@;
    let k11 = k10 + decimal(ca.2 as nat);
    let k12 = k11 + CSS_PART_6@;
    let k13 = k12 + t.1;
    let k14 = k13 + CSS_PART_7@;
    let k15 = k14 + t.2;
    let k16 = k15 + CSS_PART_8@;
    let k17 = k16 + t.3;
    let k18 = k17 + CSS_PART_9@;
    let k19 = k18 + t.4;
    let k20 = k19 + CSS_PART_10@;
    let k21 = k20 + t.5;
    let k22 = k21 + CSS_PART_11@;
    let k23 = k22 + t.6;
    let k24 = k23 + CSS_PART_12@;
    let k25 = k24 + t.2;
    let k26 = k25 + CSS_PART_13@;
    let i = k24.len() - 13;
    let x = "--window-bg: "@ + t.2 + ";"@;
    assert(k24.subrange(i, k24.len() as int) =~= "--window-bg: "@);
    assert(k26.subrange(i, i + x.len()) =~= x);
    assert(k26.is_prefix_of(k26));

    assert(k26 == css_head(colors));
    lemma_css_head_is_prefix(colors);
    lemma_prefix_trans(k26, k26, s);
    lemma_shows_in_prefix(k26, s, x, i);
}

/// The style sheet sets each theme variable to the theme's own text, as it
/// is, or to the built-in value when the theme has none: `--accent`,
/// `--bg`, `--dark-bg`, `--lighter-bg`, `--fg`, `--muted`, `--selection` and
/// `--window-bg` (the dark background); and `--accent-r`, `--accent-g`,
/// `--accent-b` to the accent's bytes in decimal, or to 122, 163, 247 when
/// the accent is not a color.
pub proof fn lemma_css_sets_theme_variables(colors: OmarchyColors)
    ensures
        shows(css_for(colors), "--accent: "@ + theme_texts(colors).0 + ";"@),
        shows(css_for(colors), "--accent-r: "@ + decimal(rgb_or(theme_texts(colors).0, (122, 163, 247)).0 as nat) + ";"@),
        shows(css_for(colors), "--accent-g: "@ + decimal(rgb_or(theme_texts(colors).0, (122, 163, 247)).1 as nat) + ";"@),
        shows(css_for(colors), "--accent-b: "@ + decimal(rgb_or(theme_texts(colors).0, (122, 163, 247)).2 as nat) + ";"@),
        shows(css_for(colors), "--bg: "@ + theme_texts(colors).1 + ";"@),
        shows(css_for(colors), "--dark-bg: "@ + theme_texts(colors).2 + ";"@),
        shows(css_for(colors), "--lighter-bg: "@ + theme_texts(colors).3 + ";"@),
        shows(css_for(colors), "--fg: "@ + theme_texts(colors).4 + ";"@),
        shows(css_for(colors), "--muted: "@ + theme_texts(colors).5 + ";"@),
        shows(css_for(colors), "--selection: "@ + theme_texts(colors).6 + ";"@),
        shows(css_for(colors), "--window-bg: "@ + theme_texts(colors).2 + ";"@),
{
    lemma_css_sets_accent(colors);
    lemma_css_sets_accent_r(colors);
    lemma_css_sets_accent_g(colors);
    lemma_css_sets_accent_b(colors);
    lemma_css_sets_bg(colors);
    lemma_css_sets_dark_bg(colors);
    lemma_css_sets_lighter_bg(colors);
    lemma_css_sets_fg(colors);
    lemma_css_sets_muted(colors);
    lemma_css_sets_selection(colors);
    lemma_css_sets_window_bg(colors);
}

fn text_or_default<'a>(value: &'a Option<String>, default: &'a str) -> (r: &'a str)
    ensures
        r@ == text_or(*value, default@),
{
    match value {
        Some(s) => s.as_str(),
        None => default,
    }
}

fn push_rgb(s: &mut String, c: (u8, u8, u8))
    ensures
        final(s)@ == old(s)@ + rgb_text(c),
{
    push_decimal(s, c.0 as u64);
    push_str(s, ", ");
    push_decimal(s, c.1 as u64);
    push_str(s, ", ");
    push_decimal(s, c.2 as u64);
    assert(final(s)@ =~= old(s)@ + rgb_text(c));
}

/// Whether every color that the style sheet reads as bytes can be cut into
/// its byte pairs (see [`css_colors_readable`]).
pub fn css_colors_cut_cleanly(colors: &OmarchyColors) -> (r: bool)
    ensures
        r == css_colors_readable(*colors),
{
    let accent = text_or_default(&colors.accent, "#7aa2f7");
    let dark_bg = text_or_default(&colors.dark_background, "#13141c");
    let red = text_or_default(&colors.red, "#f7768e");
    hex_color_cuts_cleanly(accent) && hex_color_cuts_cleanly(dark_bg) && hex_color_cuts_cleanly(red)
}

/// The GTK style sheet that paints the viewer in the theme's colors.
pub fn generate_css(colors: &OmarchyColors) -> (css: String)
    requires
        css_colors_readable(*colors),
    ensures
        css@ == css_for(*colors),
{
    let accent = text_or_default(&colors.accent, "#7aa2f7");
    let bg = text_or_default(&colors.background, "#1a1b26");
    let dark_bg = text_or_default(&colors.dark_background, "#13141c");
    let lighter_bg = text_or_default(&colors.lighter_background, "#24283b");
    let fg = text_or_default(&colors.foreground, "#a9b1d6");
    let muted = text_or_default(&colors.muted, "#414868");
    let selection = text_or_default(&colors.selection, "#292e42");
    let red = text_or_default(&colors.red, "#f7768e");
    let parsed_accent = parse_hex_rgb(accent);
    let a = match parsed_accent {
        Some(c) => c,
        None => (122, 163, 247),
    };
    let d = match parse_hex_rgb(dark_bg) {
        Some(c) => c,
        None => (18, 20, 28),
    };
    let r = match parse_hex_rgb(red) {
        Some(c) => c,
        None => (247, 117, 143),
    };
    let mut s = String::new();
    push_str(&mut s, CSS_PART_0);
    push_str(&mut s, red);
    push_str(&mut s, CSS_PART_1);
    push_str(&mut s, red);
    push_str(&mut s, CSS_PART_2);
    push_str(&mut s, accent);
    push_str(&mut s, CSS_PART_3);
    push_decimal(&mut s, a.0 as u64);
    push_str(&mut s, CSS_PART_4);
    push_decimal(&mut s, a.1 as u64);
    push_str(&mut s, CSS_PART_5);
    push_decimal(&mut s, a.2 as u64);
    push_str(&mut s, CSS_PART_6);
    push_str(&mut s, bg);
    push_str(&mut s, CSS_PART_7);
    push_str(&mut s, dark_bg);
    push_str(&mut s, CSS_PART_8);
    push_str(&mut s, lighter_bg);
    push_str(&mut s, CSS_PART_9);
    push_str(&mut s, fg);
    push_str(&mut s, CSS_PART_10);
    push_str(&mut s, muted);
    push_str(&mut s, CSS_PART_11);
    push_str(&mut s, selection);
    push_str(&mut s, CSS_PART_12);
    push_str(&mut s, dark_bg);
    push_str(&mut s, CSS_PART_13);
    push_rgb(&mut s, d);
    push_str(&mut s, CSS_PART_14);
    push_rgb(&mut s, d);
    push_str(&mut s, CSS_PART_15);
    push_rgb(&mut s, d);
    push_str(&mut s, CSS_PART_16);
    push_rgb(&mut s, a);
    push_str(&mut s, CSS_PART_17);
    push_rgb(&mut s, d);
    push_str(&mut s, CSS_PART_18);
    push_rgb(&mut s, d);
    push_str(&mut s, CSS_PART_19);
    push_rgb(&mut s, d);
    push_str(&mut s, CSS_PART_20);
    push_rgb(&mut s, d);
    push_str(&mut s, CSS_PART_21);
    push_rgb(&mut s, d);
    push_str(&mut s, CSS_PART_22);
    push_rgb(&mut s, d);
    push_str(&mut s, CSS_PART_23);
    push_str(&mut s, dark_bg);
    push_str(&mut s, CSS_PART_24);
    push_rgb(&mut s, a);
    push_str(&mut s, CSS_PART_25);
    push_str(&mut s, dark_bg);
    push_str(&mut s, CSS_PART_26);
    push_rgb(&mut s, a);
    push_str(&mut s, CSS_PART_27);
    push_str(&mut s, dark_bg);
    push_str(&mut s, CSS_PART_28);
    push_rgb(&mut s, a);
    push_str(&mut s, CSS_PART_29);
    push_str(&mut s, dark_bg);
    push_str(&mut s, CSS_PART_30);
    push_str(&mut s, red);
    push_str(&mut s, CSS_PART_31);
    push_rgb(&mut s, r);
    push_str(&mut s, CSS_PART_32);
    assert(s@ =~= css_for(*colors));
    s
}

} // verus!
