//! ASCII-art logos for the vendors.
//!
//! The default logo is a fixed block-letter banner. Every other vendor gets
//! its display name rendered in the standard FIGlet font, with the subtitle
//! centred under the widest line of the art.

use crate::text::{
    byte_len, from_chars, lines, lowercase_of, push_all, rows, same_chars, split_lines, to_chars,
    trim_text, trimmed, utf8_len,
};
use crate::vendors::{get_default_vendor, get_vendor_info, vendor_of, VENDORS};
use vstd::prelude::*;

verus! {

/// RISC-V block letter logo
pub const RISCV_LOGO: &'static str = r"
        ██████╗ ██╗███████╗ ██████╗      ██╗   ██╗
        ██╔══██╗██║██╔════╝██╔════╝      ██║   ██║
        ██████╔╝██║███████╗██║     █████╗██║   ██║
        ██╔══██╗██║╚════██║██║     ╚════╝╚██╗ ██╔╝
        ██║  ██║██║███████║╚██████╗       ╚████╔╝
        ╚═╝  ╚═╝╚═╝╚══════╝ ╚═════╝        ╚═══╝
                    Architecture Info
";

/// Logo display styles
#[derive(Debug, Clone, Copy, PartialEq, Eq, Structural)]
pub enum LogoStyle {
    Normal,
    Small,
    /// No logo at all.
    Off,
}

/// The style that a lowercased style name selects: `small` and `compact`
/// the small one, `none` and `off` none, every other name the normal one.
pub open spec fn style_of(lower: Seq<char>) -> LogoStyle {
    if lower == "small"@ || lower == "compact"@ {
        LogoStyle::Small
    } else if lower == "none"@ || lower == "off"@ {
        LogoStyle::Off
    } else {
        LogoStyle::Normal
    }
}

impl LogoStyle {
    /// The style that `s` names, whatever its case.
    pub fn from_str(s: &str) -> (style: Self)
        ensures
            style == style_of(lowercase_of(s@)),
    {
        let lower = s.to_lowercase();
        LogoStyle::from_lowered(lower.as_str())
    }

    /// The style that a lowercase name selects.
    pub fn from_lowered(lower: &str) -> (style: Self)
        ensures
            style == style_of(lower@),
    {
        let chars = to_chars(lower);
        if same_chars(chars.as_slice(), to_chars("small").as_slice()) || same_chars(
            chars.as_slice(),
            to_chars("compact").as_slice(),
        ) {
            LogoStyle::Small
        } else if same_chars(chars.as_slice(), to_chars("none").as_slice()) || same_chars(
            chars.as_slice(),
            to_chars("off").as_slice(),
        ) {
            LogoStyle::Off
        } else {
            LogoStyle::Normal
        }
    }
}

/// What the standard FIGlet font makes of a message: the art as text, or
/// nothing where the font renders none of its characters.
pub uninterp spec fn figlet_art(message: Seq<char>) -> Option<Seq<char>>;

/// Renders `message` in the standard font of `figlet_rs`:
/// `FIGfont::standard`, then `convert`, then the figure printed. The font
/// is built into the crate, so the art depends on the message alone. A
/// font that fails to load and a message without art both give `None`.
#[verifier::external_body]
fn render_figlet(message: &str) -> (art: Option<String>)
    ensures
        match art {
            Some(text) => figlet_art(message@) == Some(text@),
            None => figlet_art(message@) is None,
        },
{
    match figlet_rs::FIGfont::standard() {
        Ok(font) => match font.convert(message) {
            Some(figure) => Some(figure.to_string()),
            None => None,
        },
        Err(_) => None,
    }
}

/// The byte width of the widest line that is not blank; 0 when all are.
pub open spec fn widest_line(art_lines: Seq<Seq<char>>) -> nat
    decreases art_lines.len(),
{
    if art_lines.len() == 0 {
        0
    } else {
        let before = widest_line(art_lines.drop_last());
        let line = art_lines.last();
        if trimmed(line).len() > 0 && byte_len(line) > before {
            byte_len(line)
        } else {
            before
        }
    }
}

/// The spaces that centre a subtitle under art of the given width: half
/// of what the art is wider by, counted in bytes.
pub open spec fn padding(width: nat, subtitle: Seq<char>) -> nat {
    if width > byte_len(subtitle) {
        ((width - byte_len(subtitle)) / 2) as nat
    } else {
        0
    }
}

/// `text` with spaces before it, as many as it has fewer characters than
/// `width`.
pub open spec fn right_aligned(text: Seq<char>, width: nat) -> Seq<char> {
    if width > text.len() {
        Seq::new((width - text.len()) as nat, |i: int| ' ') + text
    } else {
        text
    }
}

/// The logo around FIGlet art: a line feed, the art, and the subtitle
/// right-aligned to its padding plus its own byte width.
pub open spec fn figlet_logo(art: Seq<char>, subtitle: Seq<char>) -> Seq<char> {
    let width = padding(widest_line(lines(art)), subtitle) + byte_len(subtitle);
    seq!['\n'] + art + right_aligned(subtitle, width) + seq!['\n']
}

/// The logo for a vendor whose name gives no art.
pub open spec fn plain_logo(display_name: Seq<char>, subtitle: Seq<char>) -> Seq<char> {
    "\n  === "@ + display_name + " ===\n       "@ + subtitle + "\n"@
}

/// The normal-style logo of a vendor other than the default, given what
/// the font made of its display name.
pub open spec fn art_logo(
    display_name: Seq<char>,
    subtitle: Seq<char>,
    art: Option<Seq<char>>,
) -> Seq<char> {
    match art {
        Some(text) => figlet_logo(text, subtitle),
        None => plain_logo(display_name, subtitle),
    }
}

/// The logo of a vendor in a style, given what the font makes of its
/// display name.
pub open spec fn styled_logo(
    display_name: Seq<char>,
    subtitle: Seq<char>,
    style: LogoStyle,
    art: Option<Seq<char>>,
) -> Seq<char> {
    match style {
        LogoStyle::Off => Seq::empty(),
        LogoStyle::Small => "  "@ + display_name + " - "@ + subtitle,
        LogoStyle::Normal => if display_name == "RISC-V"@ {
            RISCV_LOGO@
        } else {
            art_logo(display_name, subtitle, art)
        },
    }
}

/// The logo of a vendor row in a style.
pub open spec fn logo_of(row: (&'static str, &'static str), style: LogoStyle) -> Seq<char> {
    styled_logo(row.0@, row.1@, style, figlet_art(row.0@))
}

/// The vendor row that an alias selects: its own, or the default one.
pub open spec fn row_of(alias: Seq<char>) -> (&'static str, &'static str) {
    match vendor_of(alias) {
        Some(vendor) => VENDORS[vendor],
        None => VENDORS[0],
    }
}

/// Whether `line` is blank: nothing is left of it after trimming.
fn is_blank(line: &[char]) -> (blank: bool)
    ensures
        blank == (trimmed(line@).len() == 0),
{
    trim_text(line).len() == 0
}

/// The logo around FIGlet art: a line feed, the art, and under it the
/// subtitle, centred below the widest line that is not blank.
pub fn frame_art(art: &str, subtitle: &str) -> (logo: String)
    ensures
        logo@ == figlet_logo(art@, subtitle@),
{
    let art_chars = to_chars(art);
    let sub_chars = to_chars(subtitle);
    let art_lines = split_lines(art_chars.as_slice());
    let mut widest: u128 = 0;
    let mut i: usize = 0;
    while i < art_lines.len()
        invariant
            i <= art_lines.len(),
            widest == widest_line(rows(art_lines@).take(i as int)),
        decreases art_lines.len() - i,
    {
        proof {
            let next = rows(art_lines@).take(i + 1);
            assert(next.drop_last() =~= rows(art_lines@).take(i as int));
            assert(next.last() == art_lines@[i as int]@);
        }
        let line = art_lines[i].as_slice();
        if !is_blank(line) {
            let width = utf8_len(line);
            if width > widest {
                widest = width;
            }
        }
        i += 1;
    }
    proof {
        assert(rows(art_lines@).take(art_lines@.len() as int) =~= rows(art_lines@));
    }
    let sub_width = utf8_len(sub_chars.as_slice());
    let pad: u128 = if widest > sub_width {
        (widest - sub_width) / 2
    } else {
        0
    };
    let width: u128 = pad + sub_width;
    let mut out: Vec<char> = Vec::new();
    out.push('\n');
    push_all(&mut out, art_chars.as_slice());
    let ghost head = out@;
    if width > sub_chars.len() as u128 {
        let count: u128 = width - sub_chars.len() as u128;
        let mut k: u128 = 0;
        while k < count
            invariant
                k <= count,
                out@ == head + Seq::new(k as nat, |i: int| ' '),
            decreases count - k,
        {
            out.push(' ');
            k += 1;
            assert(out@ =~= head + Seq::new(k as nat, |i: int| ' '));
        }
    }
    push_all(&mut out, sub_chars.as_slice());
    out.push('\n');
    proof {
        assert(head =~= seq!['\n'] + art@);
        assert(out@ =~= figlet_logo(art@, subtitle@));
    }
    from_chars(out.as_slice())
}

/// The logo for a vendor whose name gives no art.
pub fn fallback_logo(display_name: &str, subtitle: &str) -> (logo: String)
    ensures
        logo@ == plain_logo(display_name@, subtitle@),
{
    let mut logo = "\n  === ".to_owned();
    logo.append(display_name);
    logo.append(" ===\n       ");
    logo.append(subtitle);
    logo.append("\n");
    logo
}

/// The normal-style logo of a vendor other than the default, from what
/// the font made of its display name: framed art, or the plain logo where
/// there is no art.
pub fn compose_logo(display_name: &str, subtitle: &str, art: Option<String>) -> (logo: String)
    ensures
        logo@ == art_logo(
            display_name@,
            subtitle@,
            match art {
                Some(text) => Some(text@),
                None => None,
            },
        ),
{
    match art {
        Some(text) => frame_art(text.as_str(), subtitle),
        None => fallback_logo(display_name, subtitle),
    }
}

/// The display name in the standard FIGlet font with the subtitle under
/// it, or the plain logo where the font gives no art.
pub fn generate_figlet_logo(display_name: &str, subtitle: &str) -> (logo: String)
    ensures
        logo@ == art_logo(display_name@, subtitle@, figlet_art(display_name@)),
{
    let art = render_figlet(display_name);
    compose_logo(display_name, subtitle, art)
}

/// The logo of a vendor in a style, given what the font made of its
/// display name: nothing in the `Off` style; name and subtitle on one line
/// in the small style; in the normal style the banner for the default
/// vendor and the art logo for every other.
pub fn logo_from(
    display_name: &str,
    subtitle: &str,
    style: LogoStyle,
    art: Option<String>,
) -> (logo: String)
    ensures
        logo@ == styled_logo(
            display_name@,
            subtitle@,
            style,
            match art {
                Some(text) => Some(text@),
                None => None,
            },
        ),
{
    match style {
        LogoStyle::Off => String::new(),
        LogoStyle::Small => {
            let mut logo = "  ".to_owned();
            logo.append(display_name);
            logo.append(" - ");
            logo.append(subtitle);
            logo
        },
        LogoStyle::Normal => {
            let name = to_chars(display_name);
            if same_chars(name.as_slice(), to_chars("RISC-V").as_slice()) {
                RISCV_LOGO.to_owned()
            } else {
                compose_logo(display_name, subtitle, art)
            }
        },
    }
}

/// The logo of the vendor that `vendor` names, in the given style. An
/// unknown vendor gets the default logo.
pub fn generate_logo(vendor: &str, style: LogoStyle) -> (logo: String)
    ensures
        logo@ == logo_of(row_of(lowercase_of(vendor@)), style),
{
    let (display_name, subtitle) = match get_vendor_info(vendor) {
        Some(row) => row,
        None => get_default_vendor(),
    };
    let art = match style {
        LogoStyle::Normal => {
            let name = to_chars(display_name);
            if same_chars(name.as_slice(), to_chars("RISC-V").as_slice()) {
                None
            } else {
                render_figlet(display_name)
            }
        },
        _ => None,
    };
    logo_from(display_name, subtitle, style, art)
}

} // verus!
