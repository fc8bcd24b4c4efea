//! Theme colours read from `colors.toml`, and the conversion of their
//! hex notation into RGB colours.
use vstd::prelude::*;
use vstd::string::*;

verus! {

/// A colour as the interface draws it.
#[derive(Debug, Clone, Copy, PartialEq, Eq, Structural)]
pub enum ThemeColor {
    Rgb(u8, u8, u8),
    Reset,
    Green,
    Red,
    Yellow,
    Cyan,
}

/// The colours of a theme, as `colors.toml` lists them.
#[derive(Debug, Clone)]
pub struct ThemeColors {
    pub background: String,
    pub foreground: String,
    pub accent: String,
    pub cursor: Option<String>,
    pub selection_background: Option<String>,
    pub selection_foreground: Option<String>,
    pub color0: Option<String>,
    pub color1: Option<String>,
    pub color2: Option<String>,
    pub color3: Option<String>,
    pub color4: Option<String>,
    pub color5: Option<String>,
    pub color6: Option<String>,
    pub color7: Option<String>,
    pub color8: Option<String>,
    pub color9: Option<String>,
    pub color10: Option<String>,
    pub color11: Option<String>,
    pub color12: Option<String>,
    pub color13: Option<String>,
    pub color14: Option<String>,
    pub color15: Option<String>,
}

/// Whether `t` is the built-in theme.
pub open spec fn is_fallback_theme(t: ThemeColors) -> bool {
    &&& t.background@ == "#1e1e2e"@
    &&& t.foreground@ == "#cdd6f4"@
    &&& t.accent@ == "#89b4fa"@
    &&& t.cursor matches Some(c) && c@ == "#f5e0dc"@
    &&& t.selection_background matches Some(c) && c@ == "#f5e0dc"@
    &&& t.selection_foreground matches Some(c) && c@ == "#1e1e2e"@
    &&& t.color0 matches Some(c) && c@ == "#45475a"@
    &&& t.color1 matches Some(c) && c@ == "#f38ba8"@
    &&& t.color2 matches Some(c) && c@ == "#a6e3a1"@
    &&& t.color3 matches Some(c) && c@ == "#f9e2af"@
    &&& t.color4 matches Some(c) && c@ == "#89b4fa"@
    &&& t.color5 matches Some(c) && c@ == "#f5c2e7"@
    &&& t.color6 matches Some(c) && c@ == "#94e2d5"@
    &&& t.color7 matches Some(c) && c@ == "#bac2de"@
    &&& t.color8 matches Some(c) && c@ == "#585b70"@
    &&& t.color9 matches Some(c) && c@ == "#f5c2e7"@
    &&& t.color10 matches Some(c) && c@ == "#89dceb"@
    &&& t.color11 matches Some(c) && c@ == "#f9e2af"@
    &&& t.color12 matches Some(c) && c@ == "#89b4fa"@
    &&& t.color13 matches Some(c) && c@ == "#cba6f7"@
    &&& t.color14 matches Some(c) && c@ == "#89dceb"@
    &&& t.color15 matches Some(c) && c@ == "#f5f5f5"@
}

/// The colour an optional hex entry names, or `default` where the entry is absent.
pub open spec fn optional_color_spec(entry: Option<String>, default: ThemeColor) -> ThemeColor {
    match entry {
        Some(h) => hex_color_spec(h@),
        None => default,
    }
}

/// Whether `c` is a hexadecimal digit (either case).
pub open spec fn is_hex_digit(c: char) -> bool {
    ||| ('0' as int) <= (c as int) <= ('9' as int)
    ||| ('a' as int) <= (c as int) <= ('f' as int)
    ||| ('A' as int) <= (c as int) <= ('F' as int)
}

/// The value of the hexadecimal digit `c`.
pub open spec fn hex_digit_value(c: char) -> int {
    if ('0' as int) <= (c as int) <= ('9' as int) {
        (c as int) - ('0' as int)
    } else if ('a' as int) <= (c as int) <= ('f' as int) {
        (c as int) - ('a' as int) + 10
    } else {
        (c as int) - ('A' as int) + 10
    }
}

pub open spec fn all_hex_digits(s: Seq<char>) -> bool {
    forall|i: int| 0 <= i < s.len() ==> #[trigger] is_hex_digit(s[i])
}

/// The number that the hexadecimal digits `s` denote (most significant first).
pub open spec fn hex_value(s: Seq<char>) -> int
    decreases s.len(),
{
    if s.len() == 0 {
        0
    } else {
        hex_value(s.drop_last()) * 16 + hex_digit_value(s.last())
    }
}

/// `s` without all of its leading `'#'` characters.
pub open spec fn strip_hashes(s: Seq<char>) -> Seq<char>
    decreases s.len(),
{
    if s.len() > 0 && s[0] == '#' {
        strip_hashes(s.drop_first())
    } else {
        s
    }
}

/// The digits of a hexadecimal numeral: `s` without one leading `'+'`, if it has one.
pub open spec fn hex_digits_of(s: Seq<char>) -> Seq<char> {
    if s.len() > 0 && s[0] == '+' {
        s.drop_first()
    } else {
        s
    }
}

/// The `u32` that `s` denotes in base 16, as `u32::from_str_radix(s, 16)` reads it:
/// an optional `'+'`, then one or more hex digits whose value fits in a `u32`.
pub open spec fn parse_hex_u32_spec(s: Seq<char>) -> Option<u32> {
    let digits = hex_digits_of(s);
    if digits.len() > 0 && all_hex_digits(digits) && hex_value(digits) <= u32::MAX {
        Some(hex_value(digits) as u32)
    } else {
        None
    }
}

/// The colour that the text `s` names: the red, green and blue bytes of its
/// hexadecimal value once leading `'#'`s are dropped, or `Reset` where it is no
/// such value.
pub open spec fn hex_color_spec(s: Seq<char>) -> ThemeColor {
    match parse_hex_u32_spec(strip_hashes(s)) {
        Some(n) => ThemeColor::Rgb(
            ((n as int / 65536) % 256) as u8,
            ((n as int / 256) % 256) as u8,
            (n as int % 256) as u8,
        ),
        None => ThemeColor::Reset,
    }
}

proof fn lemma_hex_value_prefix(s: Seq<char>, k: int)
    requires
        all_hex_digits(s),
        0 <= k <= s.len(),
    ensures
        0 <= hex_value(s.take(k)) <= hex_value(s),
    decreases s.len(),
{
    if s.len() == 0 {
        assert(s.take(k) =~= s);
    } else if k == s.len() {
        assert(s.take(k) =~= s);
        lemma_hex_value_prefix(s.drop_last(), s.len() - 1);
        assert(s.drop_last().take(s.len() - 1) =~= s.drop_last());
        assert(is_hex_digit(s[s.len() - 1]));
    } else {
        lemma_hex_value_prefix(s.drop_last(), k);
        assert(s.drop_last().take(k) =~= s.take(k));
        lemma_hex_value_prefix(s.drop_last(), s.len() - 1);
        assert(s.drop_last().take(s.len() - 1) =~= s.drop_last());
        assert(is_hex_digit(s[s.len() - 1]));
    }
}

fn hex_digit(c: char) -> (r: Option<u32>)
    ensures
        r is Some <==> is_hex_digit(c),
        r matches Some(v) ==> v == hex_digit_value(c) && v < 16,
{
    let code = c as u32;
    if 48 <= code && code <= 57 {
        Some(code - 48)
    } else if 97 <= code && code <= 102 {
        Some(code - 87)
    } else if 65 <= code && code <= 70 {
        Some(code - 55)
    } else {
        None
    }
}

/// Reads `s` as a base-16 `u32`, as `u32::from_str_radix(s, 16)` does.
pub fn parse_hex_u32(s: &str) -> (r: Option<u32>)
    ensures
        r == parse_hex_u32_spec(s@),
{
    let len = s.unicode_len();
    let mut start: usize = 0;
    if len > 0 && s.get_char(0) == '+' {
        start = 1;
    }
    let ghost digits = hex_digits_of(s@);
    assert(digits =~= s@.subrange(start as int, len as int));
    if start == len {
        return None;
    }
    let mut acc: u32 = 0;
    let mut i: usize = start;
    while i < len
        invariant
            start <= i <= len,
            len == s@.len(),
            digits =~= s@.subrange(start as int, len as int),
            digits == hex_digits_of(s@),
            all_hex_digits(digits.take(i - start)),
            acc as int == hex_value(digits.take(i - start)),
        decreases len - i,
    {
        let ghost k = (i - start) as int;
        let c = s.get_char(i);
        assert(c == digits[k]);
        let d = match hex_digit(c) {
            Some(d) => d,
            None => {
                assert(!is_hex_digit(digits[k]));
                assert(!all_hex_digits(digits));
                return None;
            }
        };
        assert(digits.take(k + 1).drop_last() =~= digits.take(k));
        assert(digits.take(k + 1).last() == c);
        if acc > 0x0fff_ffff {
            proof {
                assert(hex_value(digits.take(k + 1)) > u32::MAX);
                if all_hex_digits(digits) {
                    lemma_hex_value_prefix(digits, k + 1);
                    assert(digits.take(k + 1).len() == k + 1);
                }
            }
            return None;
        }
        acc = acc * 16 + d;
        i = i + 1;
        assert(all_hex_digits(digits.take(i - start))) by {
            assert forall|j: int| 0 <= j < digits.take(k + 1).len() implies is_hex_digit(
                #[trigger] digits.take(k + 1)[j],
            ) by {
                if j < k {
                    assert(digits.take(k + 1)[j] == digits.take(k)[j]);
                }
            }
        }
    }
    assert(digits.take(len - start) =~= digits);
    Some(acc)
}

/// Converts a colour written in hex (`"#RRGGBB"`, with or without leading `'#'`)
/// into a colour; text that is no base-16 `u32` gives `Reset`.
pub fn hex_to_color(hex: &str) -> (c: ThemeColor)
    ensures
        c == hex_color_spec(hex@),
{
    let len = hex.unicode_len();
    let mut start: usize = 0;
    assert(hex@.skip(0) =~= hex@);
    while start < len && hex.get_char(start) == '#'
        invariant
            start <= len,
            len == hex@.len(),
            strip_hashes(hex@) == strip_hashes(hex@.skip(start as int)),
        decreases len - start,
    {
        assert(hex@.skip(start as int).drop_first() =~= hex@.skip(start + 1));
        start = start + 1;
    }
    let digits = hex.substring_char(start, len);
    assert(digits@ =~= hex@.skip(start as int));
    assert(strip_hashes(hex@) == digits@);
    match parse_hex_u32(digits) {
        Some(n) => {
            assert(((n >> 16) & 0xff) == (n / 65536) % 256) by (bit_vector);
            assert(((n >> 8) & 0xff) == (n / 256) % 256) by (bit_vector);
            assert((n & 0xff) == n % 256) by (bit_vector);
            let r = ((n >> 16) & 0xff) as u8;
            let g = ((n >> 8) & 0xff) as u8;
            let b = (n & 0xff) as u8;
            ThemeColor::Rgb(r, g, b)
        },
        None => ThemeColor::Reset,
    }
}

impl ThemeColors {
    /// The built-in theme used where no `colors.toml` can be read.
    pub fn fallback() -> (t: Self)
        ensures
            is_fallback_theme(t),
    {
        ThemeColors {
            background: String::from_str("#1e1e2e"),
            foreground: String::from_str("#cdd6f4"),
            accent: String::from_str("#89b4fa"),
            cursor: Some(String::from_str("#f5e0dc")),
            selection_background: Some(String::from_str("#f5e0dc")),
            selection_foreground: Some(String::from_str("#1e1e2e")),
            color0: Some(String::from_str("#45475a")),
            color1: Some(String::from_str("#f38ba8")),
            color2: Some(String::from_str("#a6e3a1")),
            color3: Some(String::from_str("#f9e2af")),
            color4: Some(String::from_str("#89b4fa")),
            color5: Some(String::from_str("#f5c2e7")),
            color6: Some(String::from_str("#94e2d5")),
            color7: Some(String::from_str("#bac2de")),
            color8: Some(String::from_str("#585b70")),
            color9: Some(String::from_str("#f5c2e7")),
            color10: Some(String::from_str("#89dceb")),
            color11: Some(String::from_str("#f9e2af")),
            color12: Some(String::from_str("#89b4fa")),
            color13: Some(String::from_str("#cba6f7")),
            color14: Some(String::from_str("#89dceb")),
            color15: Some(String::from_str("#f5f5f5")),
        }
    }

    /// The background colour.
    pub fn bg_color(&self) -> (c: ThemeColor)
        ensures
            c == hex_color_spec(self.background@),
    {
        hex_to_color(self.background.as_str())
    }

    /// The foreground colour.
    pub fn fg_color(&self) -> (c: ThemeColor)
        ensures
            c == hex_color_spec(self.foreground@),
    {
        hex_to_color(self.foreground.as_str())
    }

    /// The accent colour.
    pub fn accent_color(&self) -> (c: ThemeColor)
        ensures
            c == hex_color_spec(self.accent@),
    {
        hex_to_color(self.accent.as_str())
    }

    /// The colour of success: `color2`, or green where the theme has none.
    pub fn success_color(&self) -> (c: ThemeColor)
        ensures
            c == optional_color_spec(self.color2, ThemeColor::Green),
    {
        match &self.color2 {
            Some(h) => hex_to_color(h.as_str()),
            None => ThemeColor::Green,
        }
    }

    /// The colour of errors: `color1`, or red where the theme has none.
    pub fn error_color(&self) -> (c: ThemeColor)
        ensures
            c == optional_color_spec(self.color1, ThemeColor::Red),
    {
        match &self.color1 {
            Some(h) => hex_to_color(h.as_str()),
            None => ThemeColor::Red,
        }
    }

    /// The colour of warnings: `color3`, or yellow where the theme has none.
    pub fn warning_color(&self) -> (c: ThemeColor)
        ensures
            c == optional_color_spec(self.color3, ThemeColor::Yellow),
    {
        match &self.color3 {
            Some(h) => hex_to_color(h.as_str()),
            None => ThemeColor::Yellow,
        }
    }

    /// The colour of information: `color4`, or cyan where the theme has none.
    pub fn info_color(&self) -> (c: ThemeColor)
        ensures
            c == optional_color_spec(self.color4, ThemeColor::Cyan),
    {
        match &self.color4 {
            Some(h) => hex_to_color(h.as_str()),
            None => ThemeColor::Cyan,
        }
    }
}


/// Leading `'#'` characters do not change the colour that a hex text names:
/// `"#RRGGBB"` and `"RRGGBB"` are the same colour.
pub proof fn law_hash_prefix_ignored(s: Seq<char>)
    ensures
        hex_color_spec(seq!['#'] + s) == hex_color_spec(s),
{
    let t = seq!['#'] + s;
    assert(t.len() > 0 && t[0] == '#');
    assert(t.drop_first() =~= s);
}

/// A six-digit hex text `RRGGBB` names the colour whose red, green and blue
/// bytes are the values of its three digit pairs.
pub proof fn law_six_digit_hex(s: Seq<char>)
    requires
        s.len() == 6,
        all_hex_digits(s),
    ensures
        hex_color_spec(s) == ThemeColor::Rgb(
            (hex_digit_value(s[0]) * 16 + hex_digit_value(s[1])) as u8,
            (hex_digit_value(s[2]) * 16 + hex_digit_value(s[3])) as u8,
            (hex_digit_value(s[4]) * 16 + hex_digit_value(s[5])) as u8,
        ),
{
    let d0 = hex_digit_value(s[0]);
    let d1 = hex_digit_value(s[1]);
    let d2 = hex_digit_value(s[2]);
    let d3 = hex_digit_value(s[3]);
    let d4 = hex_digit_value(s[4]);
    let d5 = hex_digit_value(s[5]);
    assert(is_hex_digit(s[0]) && is_hex_digit(s[1]) && is_hex_digit(s[2]));
    assert(is_hex_digit(s[3]) && is_hex_digit(s[4]) && is_hex_digit(s[5]));
    assert(s[0] != '#' && s[0] != '+');
    assert(strip_hashes(s) == s);
    assert(hex_digits_of(s) == s);
    let s5 = s.drop_last();
    let s4 = s5.drop_last();
    let s3 = s4.drop_last();
    let s2 = s3.drop_last();
    let s1 = s2.drop_last();
    let s0 = s1.drop_last();
    assert(s0.len() == 0);
    assert(hex_value(s0) == 0);
    assert(s1.last() == s[0] && s2.last() == s[1] && s3.last() == s[2]);
    assert(s4.last() == s[3] && s5.last() == s[4] && s.last() == s[5]);
    assert(hex_value(s1) == d0);
    assert(hex_value(s2) == d0 * 16 + d1);
    assert(hex_value(s3) == (d0 * 16 + d1) * 16 + d2);
    assert(hex_value(s4) == ((d0 * 16 + d1) * 16 + d2) * 16 + d3);
    assert(hex_value(s5) == (((d0 * 16 + d1) * 16 + d2) * 16 + d3) * 16 + d4);
    let n = hex_value(s);
    assert(n == ((((d0 * 16 + d1) * 16 + d2) * 16 + d3) * 16 + d4) * 16 + d5);
    let r = d0 * 16 + d1;
    let g = d2 * 16 + d3;
    let b = d4 * 16 + d5;
    assert(n == r * 65536 + g * 256 + b && 0 <= r < 256 && 0 <= g < 256 && 0 <= b < 256) by (nonlinear_arith)
        requires
            n == ((((d0 * 16 + d1) * 16 + d2) * 16 + d3) * 16 + d4) * 16 + d5,
            r == d0 * 16 + d1,
            g == d2 * 16 + d3,
            b == d4 * 16 + d5,
            0 <= d0 < 16, 0 <= d1 < 16, 0 <= d2 < 16, 0 <= d3 < 16, 0 <= d4 < 16, 0 <= d5 < 16,
    ;
    assert(n / 65536 % 256 == r && n / 256 % 256 == g && n % 256 == b) by (nonlinear_arith)
        requires
            n == r * 65536 + g * 256 + b,
            0 <= r < 256,
            0 <= g < 256,
            0 <= b < 256,
    ;
}

/// The hexadecimal digits and their values: `'0'`..`'9'` are 0 to 9, and
/// `'a'`..`'f'` and `'A'`..`'F'` are 10 to 15; no other character is a digit.
pub proof fn law_hex_digit_table(c: char)
    ensures
        ('0' as int) <= (c as int) <= ('9' as int) ==> is_hex_digit(c) && hex_digit_value(c) == (
        c as int) - 48,
        ('a' as int) <= (c as int) <= ('f' as int) ==> is_hex_digit(c) && hex_digit_value(c) == (
        c as int) - 97 + 10,
        ('A' as int) <= (c as int) <= ('F' as int) ==> is_hex_digit(c) && hex_digit_value(c) == (
        c as int) - 65 + 10,
        !(48 <= (c as int) <= 57) && !(97 <= (c as int) <= 102) && !(65 <= (c as int) <= 70)
            ==> !is_hex_digit(c),
{
}

/// The ASCII upper-case form of a character; other characters stay as they are.
pub open spec fn ascii_upper(c: char) -> char {
    if ('a' as int) <= (c as int) <= ('z' as int) {
        ((c as int) - 32) as char
    } else {
        c
    }
}

/// A text with its ASCII letters in upper case.
pub open spec fn ascii_upper_text(s: Seq<char>) -> Seq<char> {
    s.map_values(|c: char| ascii_upper(c))
}

proof fn lemma_upper_digit(c: char)
    ensures
        is_hex_digit(ascii_upper(c)) == is_hex_digit(c),
        is_hex_digit(c) ==> hex_digit_value(ascii_upper(c)) == hex_digit_value(c),
        ascii_upper(c) == '#' <==> c == '#',
        ascii_upper(c) == '+' <==> c == '+',
{
}

proof fn lemma_upper_strip(s: Seq<char>)
    ensures
        strip_hashes(ascii_upper_text(s)) == ascii_upper_text(strip_hashes(s)),
    decreases s.len(),
{
    let u = ascii_upper_text(s);
    if s.len() > 0 {
        lemma_upper_digit(s[0]);
        assert(u[0] == ascii_upper(s[0]));
        if s[0] == '#' {
            assert(u.drop_first() =~= ascii_upper_text(s.drop_first()));
            lemma_upper_strip(s.drop_first());
        }
    }
}

proof fn lemma_upper_hex_value(s: Seq<char>)
    requires
        all_hex_digits(s),
    ensures
        all_hex_digits(ascii_upper_text(s)),
        hex_value(ascii_upper_text(s)) == hex_value(s),
    decreases s.len(),
{
    let u = ascii_upper_text(s);
    assert forall|i: int| 0 <= i < u.len() implies #[trigger] is_hex_digit(u[i]) by {
        assert(is_hex_digit(s[i]));
        lemma_upper_digit(s[i]);
    }
    if s.len() > 0 {
        let p = s.drop_last();
        assert(all_hex_digits(p)) by {
            assert forall|i: int| 0 <= i < p.len() implies #[trigger] is_hex_digit(p[i]) by {
                assert(p[i] == s[i]);
            }
        }
        lemma_upper_hex_value(p);
        assert(u.drop_last() =~= ascii_upper_text(p));
        assert(is_hex_digit(s.last()));
        lemma_upper_digit(s.last());
    }
}

/// Hex colours do not depend on the case of their letters: upper-casing a
/// text gives the same colour (`"#A6E3A1"` is `"#a6e3a1"`).
pub proof fn law_hex_case_insensitive(s: Seq<char>)
    ensures
        hex_color_spec(ascii_upper_text(s)) == hex_color_spec(s),
{
    lemma_upper_strip(s);
    let t = strip_hashes(s);
    let ut = ascii_upper_text(t);
    let d = hex_digits_of(t);
    let ud = hex_digits_of(ut);
    if t.len() > 0 {
        lemma_upper_digit(t[0]);
        assert(ut[0] == ascii_upper(t[0]));
        if t[0] == '+' {
            assert(ut.drop_first() =~= ascii_upper_text(t.drop_first()));
        }
    }
    assert(ud =~= ascii_upper_text(d));
    if all_hex_digits(d) {
        lemma_upper_hex_value(d);
    } else {
        let i = choose|i: int| 0 <= i < d.len() && !#[trigger] is_hex_digit(d[i]);
        lemma_upper_digit(d[i]);
        assert(ud[i] == ascii_upper(d[i]));
        assert(!is_hex_digit(ud[i]));
    }
}

proof fn lemma_leading_zero(s: Seq<char>)
    ensures
        hex_value(seq!['0'] + s) == hex_value(s),
    decreases s.len(),
{
    let t = seq!['0'] + s;
    if s.len() == 0 {
        assert(t.drop_last() =~= Seq::<char>::empty());
        assert(t.last() == '0');
        assert(hex_value(Seq::<char>::empty()) == 0);
    } else {
        assert(t.drop_last() =~= seq!['0'] + s.drop_last());
        assert(t.last() == s.last());
        lemma_leading_zero(s.drop_last());
    }
}

/// A text is read as a base-16 `u32` exactly when, after at most one leading
/// `'+'`, it is one or more hex digits whose value is at most `u32::MAX`; a
/// leading zero digit does not change what it is read as.
pub proof fn law_parse_hex_accepts(s: Seq<char>)
    ensures
        hex_digits_of(s) == (if s.len() > 0 && s[0] == '+' {
            s.drop_first()
        } else {
            s
        }),
        parse_hex_u32_spec(s) is Some <==> {
            &&& hex_digits_of(s).len() > 0
            &&& forall|i: int|
                0 <= i < hex_digits_of(s).len() ==> #[trigger] is_hex_digit(hex_digits_of(s)[i])
            &&& hex_value(hex_digits_of(s)) <= u32::MAX
        },
        parse_hex_u32_spec(s) matches Some(n) ==> n == hex_value(hex_digits_of(s)),
        s.len() > 0 && s[0] != '+' ==> parse_hex_u32_spec(seq!['0'] + s) == parse_hex_u32_spec(s),
{
    let d = hex_digits_of(s);
    if parse_hex_u32_spec(s) is Some {
        assert(0 <= hex_value(d)) by {
            lemma_hex_value_prefix(d, 0);
        }
    }
    if s.len() > 0 && s[0] != '+' {
        let t = seq!['0'] + s;
        lemma_leading_zero(s);
        assert(t[0] == '0');
        assert(hex_digits_of(t) == t);
        assert(hex_digits_of(s) == s);
        assert(all_hex_digits(t) == all_hex_digits(s)) by {
            if all_hex_digits(s) {
                assert forall|i: int| 0 <= i < t.len() implies #[trigger] is_hex_digit(t[i]) by {
                    if i > 0 {
                        assert(t[i] == s[i - 1]);
                    }
                }
            }
            if all_hex_digits(t) {
                assert forall|i: int| 0 <= i < s.len() implies #[trigger] is_hex_digit(s[i]) by {
                    assert(t[i + 1] == s[i]);
                }
            }
        }
    }
}

} // verus!
