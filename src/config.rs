use vstd::prelude::*;

verus! {

/// `ratatui::style::Style`, carried through as an opaque value.
#[verifier::external_type_specification]
#[verifier::external_body]
pub struct ExStyle(ratatui::style::Style);

/// `toml::Value`, carried through as an opaque value.
#[verifier::external_type_specification]
#[verifier::external_body]
pub struct ExTomlValue(toml::Value);

/// Relies on `ratatui::style::Style::default` followed by `Style::bg` with an RGB colour.
#[verifier::external_body]
fn rgb_background_style(r: u8, g: u8, b: u8) -> ratatui::style::Style {
    ratatui::style::Style::default().bg(ratatui::style::Color::Rgb(r, g, b))
}

/// Relies on `ratatui::style::Style::default`: a style that changes nothing.
#[verifier::external_body]
fn plain_style() -> ratatui::style::Style {
    ratatui::style::Style::default()
}

/// Relies on `toml::from_str`, read into a `toml::Value`; `None` where the text is not TOML.
#[verifier::external_body]
fn parse_toml(text: &str) -> Option<toml::Value> {
    toml::from_str::<toml::Value>(text).ok()
}

/// Relies on `toml::Value::get` with a string key: the entry of a table, if any.
#[verifier::external_body]
fn toml_entry<'a>(v: &'a toml::Value, key: &str) -> Option<&'a toml::Value> {
    v.get(key)
}

/// Relies on `toml::Value::as_str`: the text of a string value.
#[verifier::external_body]
fn toml_text<'a>(v: &'a toml::Value) -> Option<&'a str> {
    v.as_str()
}

/// Relies on `String::push_str`: appends `s`.
#[verifier::external_body]
pub(crate) fn push_text(out: &mut String, s: &str)
    ensures
        final(out)@ == old(out)@ + s@,
{
    out.push_str(s)
}

/// A background colour for a console cell.
#[derive(Debug, Clone, Copy, PartialEq, Eq, Structural)]
pub enum ConsoleBackgroundColour {
    Green,
    Yellow,
    Gray,
    Red,
    Blue,
    Purple,
    Cyan,
    White,
    Reset,
}

/// The background colours of `Matched`, `Present` and `Absent` letters, in that order.
pub type ColourConfig = [ConsoleBackgroundColour; 3];

/// The colours used where no valid configuration is found.
pub open spec fn default_colours() -> Seq<ConsoleBackgroundColour> {
    seq![
        ConsoleBackgroundColour::Green,
        ConsoleBackgroundColour::Yellow,
        ConsoleBackgroundColour::Gray,
    ]
}

/// The ANSI escape sequence that sets colour `c` as background (or resets it).
pub open spec fn ansi_code(c: ConsoleBackgroundColour) -> Seq<char> {
    match c {
        ConsoleBackgroundColour::Green => "\x1b[48;2;106;170;100m"@,
        ConsoleBackgroundColour::Yellow => "\x1b[48;2;201;180;88m"@,
        ConsoleBackgroundColour::Gray => "\x1b[48;2;120;124;126m"@,
        ConsoleBackgroundColour::Red => "\x1b[48;2;200;80;80m"@,
        ConsoleBackgroundColour::Blue => "\x1b[48;2;80;120;200m"@,
        ConsoleBackgroundColour::Purple => "\x1b[48;2;160;100;200m"@,
        ConsoleBackgroundColour::Cyan => "\x1b[48;2;80;180;180m"@,
        ConsoleBackgroundColour::White => "\x1b[48;2;220;220;220m"@,
        ConsoleBackgroundColour::Reset => "\x1b[0m"@,
    }
}

/// The RGB value of colour `c`; `None` for `Reset`.
pub open spec fn rgb_of(c: ConsoleBackgroundColour) -> Option<(u8, u8, u8)> {
    match c {
        ConsoleBackgroundColour::Green => Some((106u8, 170u8, 100u8)),
        ConsoleBackgroundColour::Yellow => Some((201u8, 180u8, 88u8)),
        ConsoleBackgroundColour::Gray => Some((120u8, 124u8, 126u8)),
        ConsoleBackgroundColour::Red => Some((200u8, 80u8, 80u8)),
        ConsoleBackgroundColour::Blue => Some((80u8, 120u8, 200u8)),
        ConsoleBackgroundColour::Purple => Some((160u8, 100u8, 200u8)),
        ConsoleBackgroundColour::Cyan => Some((80u8, 180u8, 180u8)),
        ConsoleBackgroundColour::White => Some((220u8, 220u8, 220u8)),
        ConsoleBackgroundColour::Reset => None,
    }
}

/// `c` with ASCII uppercase letters mapped to lowercase.
pub open spec fn ascii_lower_char(c: char) -> char {
    if 'A' <= c <= 'Z' {
        (((c as u8) + 32) as u8) as char
    } else {
        c
    }
}

/// `s` with ASCII uppercase letters mapped to lowercase.
pub open spec fn ascii_lower(s: Seq<char>) -> Seq<char> {
    Seq::new(s.len(), |i: int| ascii_lower_char(s[i]))
}

/// The colour named by the lowercase name `w`, if any.
pub open spec fn colour_named(w: Seq<char>) -> Option<ConsoleBackgroundColour> {
    if w == "green"@ {
        Some(ConsoleBackgroundColour::Green)
    } else if w == "yellow"@ {
        Some(ConsoleBackgroundColour::Yellow)
    } else if w == "gray"@ || w == "grey"@ {
        Some(ConsoleBackgroundColour::Gray)
    } else if w == "red"@ {
        Some(ConsoleBackgroundColour::Red)
    } else if w == "blue"@ {
        Some(ConsoleBackgroundColour::Blue)
    } else if w == "purple"@ {
        Some(ConsoleBackgroundColour::Purple)
    } else if w == "cyan"@ {
        Some(ConsoleBackgroundColour::Cyan)
    } else if w == "white"@ {
        Some(ConsoleBackgroundColour::White)
    } else {
        None
    }
}

/// The colour that a configuration entry `s` names, in any letter case.
pub open spec fn colour_of_name(s: Seq<char>) -> Option<ConsoleBackgroundColour> {
    colour_named(ascii_lower(s))
}

fn lower_chars(s: &str) -> (r: Vec<char>)
    ensures
        r@ == ascii_lower(s@),
{
    let n = s.unicode_len();
    let mut r: Vec<char> = Vec::new();
    let mut i: usize = 0;
    while i < n
        invariant
            n == s@.len(),
            i <= n,
            r@ == ascii_lower(s@).subrange(0, i as int),
        decreases n - i,
    {
        let c = s.get_char(i);
        let l = if 'A' <= c && c <= 'Z' {
            ((c as u8) + 32) as char
        } else {
            c
        };
        r.push(l);
        i = i + 1;
    }
    assert(r@ =~= ascii_lower(s@));
    r
}

fn same_chars(a: &Vec<char>, b: &str) -> (r: bool)
    ensures
        r == (a@ == b@),
{
    let n = b.unicode_len();
    if a.len() != n {
        return false;
    }
    let mut i: usize = 0;
    while i < n
        invariant
            n == b@.len(),
            n == a@.len(),
            i <= n,
            a@.subrange(0, i as int) == b@.subrange(0, i as int),
        decreases n - i,
    {
        if a[i] != b.get_char(i) {
            assert(a@[i as int] != b@[i as int]);
            return false;
        }
        assert(a@.subrange(0, i + 1) =~= a@.subrange(0, i as int).push(a@[i as int]));
        assert(b@.subrange(0, i + 1) =~= b@.subrange(0, i as int).push(b@[i as int]));
        i = i + 1;
    }
    assert(a@ =~= a@.subrange(0, n as int));
    assert(b@ =~= b@.subrange(0, n as int));
    true
}

/// The colour that `s` names, in any letter case (`grey` and `gray` alike).
pub fn colour_from_name(s: &str) -> (r: Option<ConsoleBackgroundColour>)
    ensures
        r == colour_of_name(s@),
{
    let w = lower_chars(s);
    if same_chars(&w, "green") {
        Some(ConsoleBackgroundColour::Green)
    } else if same_chars(&w, "yellow") {
        Some(ConsoleBackgroundColour::Yellow)
    } else if same_chars(&w, "gray") || same_chars(&w, "grey") {
        Some(ConsoleBackgroundColour::Gray)
    } else if same_chars(&w, "red") {
        Some(ConsoleBackgroundColour::Red)
    } else if same_chars(&w, "blue") {
        Some(ConsoleBackgroundColour::Blue)
    } else if same_chars(&w, "purple") {
        Some(ConsoleBackgroundColour::Purple)
    } else if same_chars(&w, "cyan") {
        Some(ConsoleBackgroundColour::Cyan)
    } else if same_chars(&w, "white") {
        Some(ConsoleBackgroundColour::White)
    } else {
        None
    }
}

impl ConsoleBackgroundColour {
    /// The ANSI escape sequence that sets this colour as background.
    pub fn as_ansi(self) -> (r: &'static str)
        ensures
            r@ == ansi_code(self),
    {
        match self {
            Self::Green => "\x1b[48;2;106;170;100m",
            Self::Yellow => "\x1b[48;2;201;180;88m",
            Self::Gray => "\x1b[48;2;120;124;126m",
            Self::Red => "\x1b[48;2;200;80;80m",
            Self::Blue => "\x1b[48;2;80;120;200m",
            Self::Purple => "\x1b[48;2;160;100;200m",
            Self::Cyan => "\x1b[48;2;80;180;180m",
            Self::White => "\x1b[48;2;220;220;220m",
            Self::Reset => "\x1b[0m",
        }
    }

    /// `text` on this background, followed by the reset sequence.
    pub fn colour_text(self, text: &str) -> (r: String)
        ensures
            r@ == ansi_code(self) + text@ + ansi_code(ConsoleBackgroundColour::Reset),
    {
        let mut out = self.as_ansi().to_owned();
        push_text(&mut out, text);
        push_text(&mut out, ConsoleBackgroundColour::Reset.as_ansi());
        out
    }

    /// The RGB value of this colour; `None` for `Reset`.
    pub fn rgb(self) -> (r: Option<(u8, u8, u8)>)
        ensures
            r == rgb_of(self),
    {
        match self {
            Self::Green => Some((106, 170, 100)),
            Self::Yellow => Some((201, 180, 88)),
            Self::Gray => Some((120, 124, 126)),
            Self::Red => Some((200, 80, 80)),
            Self::Blue => Some((80, 120, 200)),
            Self::Purple => Some((160, 100, 200)),
            Self::Cyan => Some((80, 180, 180)),
            Self::White => Some((220, 220, 220)),
            Self::Reset => None,
        }
    }

    /// A terminal style with this colour as background; `Reset` changes nothing.
    pub fn to_style(self) -> ratatui::style::Style {
        match self.rgb() {
            Some((r, g, b)) => rgb_background_style(r, g, b),
            None => plain_style(),
        }
    }
}

/// The colours that three configuration entries name, where all are given and valid.
pub open spec fn configured(
    matched: Option<Seq<char>>,
    present: Option<Seq<char>>,
    absent: Option<Seq<char>>,
) -> Option<Seq<ConsoleBackgroundColour>> {
    if matched is Some && present is Some && absent is Some && colour_of_name(matched->0) is Some
        && colour_of_name(present->0) is Some && colour_of_name(absent->0) is Some {
        Some(
            seq![
                colour_of_name(matched->0)->0,
                colour_of_name(present->0)->0,
                colour_of_name(absent->0)->0,
            ],
        )
    } else {
        None
    }
}

/// The view of an optional string.
pub open spec fn opt_view(s: Option<&str>) -> Option<Seq<char>> {
    match s {
        Some(t) => Some(t@),
        None => None,
    }
}

/// The colours configured for `Matched`, `Present` and `Absent`: the three names where
/// all are given and valid, else the defaults.
pub fn colour_config_from(
    matched: Option<&str>,
    present: Option<&str>,
    absent: Option<&str>,
) -> (r: ColourConfig)
    ensures
        r@ == match configured(opt_view(matched), opt_view(present), opt_view(absent)) {
            Some(c) => c,
            None => default_colours(),
        },
{
    let default: ColourConfig = [
        ConsoleBackgroundColour::Green,
        ConsoleBackgroundColour::Yellow,
        ConsoleBackgroundColour::Gray,
    ];
    proof {
        assert(default@ =~= default_colours());
    }
    let m = match matched {
        Some(s) => match colour_from_name(s) {
            Some(c) => c,
            None => return default,
        },
        None => return default,
    };
    let p = match present {
        Some(s) => match colour_from_name(s) {
            Some(c) => c,
            None => return default,
        },
        None => return default,
    };
    let a = match absent {
        Some(s) => match colour_from_name(s) {
            Some(c) => c,
            None => return default,
        },
        None => return default,
    };
    let r: ColourConfig = [m, p, a];
    proof {
        assert(r@ =~= seq![m, p, a]);
    }
    r
}

fn background_entry<'a>(bg: Option<&'a toml::Value>, key: &str) -> Option<&'a str> {
    match bg {
        Some(t) => match toml_entry(t, key) {
            Some(v) => toml_text(v),
            None => None,
        },
        None => None,
    }
}

/// The colours that the TOML text `content` configures under `console.background`
/// (keys `matched`, `present`, `absent`); the defaults where the text is not TOML or
/// an entry is missing or names no colour.
pub fn colour_config_from_toml(content: &str) -> (r: ColourConfig)
    ensures
        r@ == default_colours() || exists|m: Option<Seq<char>>, p: Option<Seq<char>>, a: Option<
            Seq<char>,
        >| #[trigger] configured(m, p, a) == Some(r@),
{
    let value = match parse_toml(content) {
        Some(v) => v,
        None => return colour_config_from(None, None, None),
    };
    let bg = match toml_entry(&value, "console") {
        Some(c) => toml_entry(c, "background"),
        None => None,
    };
    let m = background_entry(bg, "matched");
    let p = background_entry(bg, "present");
    let a = background_entry(bg, "absent");
    colour_config_from(m, p, a)
}

impl std::str::FromStr for ConsoleBackgroundColour {
    type Err = String;

    /// The colour that `s` names, in any letter case; an error naming `s` otherwise.
    fn from_str(s: &str) -> (r: Result<ConsoleBackgroundColour, String>) {
        match colour_from_name(s) {
            Some(c) => Ok(c),
            None => {
                let mut msg = "Unknown background colour: ".to_owned();
                push_text(&mut msg, s);
                Err(msg)
            },
        }
    }
}

} // verus!
