//! Rendering a screen snapshot to SVG markup.
//!
//! The renderer works in one pass over the grid: it finds the majority
//! background and paints it as one full-screen rectangle, coalesces the
//! remaining backgrounds into greedily grown rectangles, and gathers each
//! row's text into runs of uniform style. All geometry is computed in
//! thousandths of a pixel at a fixed 12-pixel font size, so the emitted
//! coordinates are exact decimals.

use vstd::prelude::*;
use vstd::arithmetic::div_mod::{lemma_div_is_ordered, lemma_div_nonincreasing, lemma_fundamental_div_mod_converse_mod, lemma_fundamental_div_mod_converse_div};
use vstd::arithmetic::mul::lemma_mul_upper_bound;
use vstd::string::StringExecFns;
use crate::colors::Rgb;
use crate::screen::{best_from, distinct_bgs, most_common_bg, most_common_color, Cell, Screen};

verus! {

/// Metrics for rendering a monospaced font, in font units.
///
/// To scale the font to a pixel size, each metric is divided by
/// `units_per_em` and multiplied by the font size.
#[derive(Clone, Copy, Debug, PartialEq, Eq, Structural)]
pub struct FontMetrics {
    /// The number of font units per em.
    pub units_per_em: u16,
    /// The horizontal advance between characters.
    pub advance: u32,
    /// The height between the baselines of two lines of text.
    pub line_height: u32,
    /// The space below the text baseline.
    pub descent: u32,
}

/// The default metrics, suitable for common monospaced fonts: an aspect of
/// 0.6, a line height of 1.2 em and a descent of 0.3 em.
pub open spec fn default_font_metrics() -> FontMetrics {
    FontMetrics { units_per_em: 1000, advance: 600, line_height: 1200, descent: 300 }
}

impl FontMetrics {
    /// The em size is nonzero and the descent stays within the line height.
    pub open spec fn wf(&self) -> bool {
        &&& self.units_per_em >= 1
        &&& self.descent <= self.line_height
    }

    /// The default metrics.
    pub fn standard() -> (r: FontMetrics)
        ensures
            r == default_font_metrics(),
            r.wf(),
    {
        FontMetrics { units_per_em: 1000, advance: 600, line_height: 1200, descent: 300 }
    }
}

impl Default for FontMetrics {
    /// The default metrics.
    fn default() -> (r: FontMetrics)
        ensures
            r == default_font_metrics(),
            r.wf(),
    {
        FontMetrics::standard()
    }
}

/// A font metric scaled to thousandths of a pixel at a 12-pixel font size.
pub open spec fn scaled_mpx(metric: nat, units_per_em: nat) -> nat {
    (metric * 12000) / units_per_em
}

/// The largest value `scaled_mpx` can take: the largest metric times 12000.
pub open spec fn mpx_bound() -> nat {
    51539607540000
}

/// Font metrics at the fixed 12-pixel font size, in thousandths of a pixel.
#[derive(Clone, Copy, Debug, PartialEq, Eq, Structural)]
pub struct CalculatedFontMetrics {
    /// The horizontal advance between characters.
    pub advance_mpx: u64,
    /// The height of a line of text.
    pub line_height_mpx: u64,
    /// The distance between the text baseline and the top of the next line.
    pub descent_mpx: u64,
}

impl CalculatedFontMetrics {
    /// Every field is bounded and the descent stays within the line height,
    /// so grid coordinates scaled by these metrics fit in 64 bits.
    pub open spec fn wf(&self) -> bool {
        &&& self.advance_mpx <= mpx_bound()
        &&& self.line_height_mpx <= mpx_bound()
        &&& self.descent_mpx <= self.line_height_mpx
    }
}

/// What scaling a font metric to the fixed font size yields.
pub open spec fn calc_of(m: FontMetrics) -> CalculatedFontMetrics {
    CalculatedFontMetrics {
        advance_mpx: scaled_mpx(m.advance as nat, m.units_per_em as nat) as u64,
        line_height_mpx: scaled_mpx(m.line_height as nat, m.units_per_em as nat) as u64,
        descent_mpx: scaled_mpx(m.descent as nat, m.units_per_em as nat) as u64,
    }
}

/// Scale one metric to thousandths of a pixel at the 12-pixel font size.
fn scale_metric(metric: u32, units_per_em: u16) -> (r: u64)
    requires
        units_per_em >= 1,
    ensures
        r == scaled_mpx(metric as nat, units_per_em as nat),
        r <= mpx_bound(),
{
    let prod: u64 = (metric as u64) * 12000;
    let r = prod / (units_per_em as u64);
    proof {
        lemma_div_nonincreasing(prod as int, units_per_em as int);
    }
    r
}

impl FontMetrics {
    /// The metrics at the fixed 12-pixel font size.
    pub fn at_font_size(self) -> (r: CalculatedFontMetrics)
        requires
            self.wf(),
        ensures
            r == calc_of(self),
            r.wf(),
    {
        let advance_mpx = scale_metric(self.advance, self.units_per_em);
        let line_height_mpx = scale_metric(self.line_height, self.units_per_em);
        let descent_mpx = scale_metric(self.descent, self.units_per_em);
        proof {
            lemma_div_is_ordered(
                self.descent * 12000,
                self.line_height * 12000,
                self.units_per_em as int,
            );
        }
        CalculatedFontMetrics { advance_mpx, line_height_mpx, descent_mpx }
    }
}

/// The character for the decimal digit `d`.
pub open spec fn digit_char(d: nat) -> char {
    if d == 0 {
        '0'
    } else if d == 1 {
        '1'
    } else if d == 2 {
        '2'
    } else if d == 3 {
        '3'
    } else if d == 4 {
        '4'
    } else if d == 5 {
        '5'
    } else if d == 6 {
        '6'
    } else if d == 7 {
        '7'
    } else if d == 8 {
        '8'
    } else {
        '9'
    }
}

/// The decimal digits of `n`, most significant first.
pub open spec fn dec_chars(n: nat) -> Seq<char>
    decreases n,
{
    if n < 10 {
        seq![digit_char(n)]
    } else {
        dec_chars(n / 10).push(digit_char(n % 10))
    }
}

/// The character for the hexadecimal digit `d`.
pub open spec fn hex_digit(d: nat) -> char {
    if d < 10 {
        digit_char(d)
    } else if d == 10 {
        'a'
    } else if d == 11 {
        'b'
    } else if d == 12 {
        'c'
    } else if d == 13 {
        'd'
    } else if d == 14 {
        'e'
    } else {
        'f'
    }
}

/// A color as `#rrggbb` in lowercase hexadecimal.
pub open spec fn color_chars(c: Rgb) -> Seq<char> {
    seq![
        '#',
        hex_digit(c.r as nat / 16),
        hex_digit(c.r as nat % 16),
        hex_digit(c.g as nat / 16),
        hex_digit(c.g as nat % 16),
        hex_digit(c.b as nat / 16),
        hex_digit(c.b as nat % 16),
    ]
}

/// A length in thousandths of a pixel, written as an exact decimal: the
/// whole pixels, then up to three fractional digits with trailing zeros
/// dropped.
pub open spec fn mpx_chars(n: nat) -> Seq<char> {
    let ip = n / 1000;
    let f = n % 1000;
    if f == 0 {
        dec_chars(ip)
    } else if f % 100 == 0 {
        dec_chars(ip) + seq!['.', digit_char(f / 100)]
    } else if f % 10 == 0 {
        dec_chars(ip) + seq!['.', digit_char(f / 100), digit_char((f / 10) % 10)]
    } else {
        dec_chars(ip) + seq![
            '.',
            digit_char(f / 100),
            digit_char((f / 10) % 10),
            digit_char(f % 10),
        ]
    }
}

/// Append one character to the output.
///
/// Relies on `String::push`: it appends exactly the given character.
#[verifier::external_body]
fn push_char(out: &mut String, c: char)
    ensures
        final(out)@ == old(out)@.push(c),
{
    out.push(c)
}

/// Append the character for one decimal digit.
fn push_digit(out: &mut String, d: u64)
    requires
        d < 10,
    ensures
        final(out)@ == old(out)@.push(digit_char(d as nat)),
{
    if d == 0 {
        push_char(out, '0')
    } else if d == 1 {
        push_char(out, '1')
    } else if d == 2 {
        push_char(out, '2')
    } else if d == 3 {
        push_char(out, '3')
    } else if d == 4 {
        push_char(out, '4')
    } else if d == 5 {
        push_char(out, '5')
    } else if d == 6 {
        push_char(out, '6')
    } else if d == 7 {
        push_char(out, '7')
    } else if d == 8 {
        push_char(out, '8')
    } else {
        push_char(out, '9')
    }
}

/// Append the character for one hexadecimal digit.
fn push_hex_digit(out: &mut String, d: u8)
    requires
        d < 16,
    ensures
        final(out)@ == old(out)@.push(hex_digit(d as nat)),
{
    if d < 10 {
        push_digit(out, d as u64)
    } else if d == 10 {
        push_char(out, 'a')
    } else if d == 11 {
        push_char(out, 'b')
    } else if d == 12 {
        push_char(out, 'c')
    } else if d == 13 {
        push_char(out, 'd')
    } else if d == 14 {
        push_char(out, 'e')
    } else {
        push_char(out, 'f')
    }
}

/// Append the decimal digits of `n`.
fn push_dec(out: &mut String, n: u64)
    ensures
        final(out)@ == old(out)@ + dec_chars(n as nat),
    decreases n,
{
    if n < 10 {
        push_digit(out, n);
        proof {
            assert(final(out)@ =~= old(out)@ + dec_chars(n as nat));
        }
    } else {
        push_dec(out, n / 10);
        push_digit(out, n % 10);
        proof {
            assert(final(out)@ =~= old(out)@ + dec_chars(n as nat));
        }
    }
}

/// Append a length in thousandths of a pixel as an exact decimal.
fn push_mpx(out: &mut String, n: u64)
    ensures
        final(out)@ == old(out)@ + mpx_chars(n as nat),
{
    let ip = n / 1000;
    let f = n % 1000;
    push_dec(out, ip);
    if f == 0 {
    } else if f % 100 == 0 {
        push_char(out, '.');
        push_digit(out, f / 100);
    } else if f % 10 == 0 {
        push_char(out, '.');
        push_digit(out, f / 100);
        push_digit(out, (f / 10) % 10);
    } else {
        push_char(out, '.');
        push_digit(out, f / 100);
        push_digit(out, (f / 10) % 10);
        push_digit(out, f % 10);
    }
    proof {
        assert(final(out)@ =~= old(out)@ + mpx_chars(n as nat));
    }
}

/// Append a color as `#rrggbb`.
fn push_color(out: &mut String, c: Rgb)
    ensures
        final(out)@ == old(out)@ + color_chars(c),
{
    push_char(out, '#');
    push_hex_digit(out, c.r / 16);
    push_hex_digit(out, c.r % 16);
    push_hex_digit(out, c.g / 16);
    push_hex_digit(out, c.g % 16);
    push_hex_digit(out, c.b / 16);
    push_hex_digit(out, c.b % 16);
    proof {
        assert(final(out)@ =~= old(out)@ + color_chars(c));
    }
}

/// The cell of the row-major `cells` grid at row `y`, column `x`.
pub open spec fn cell_at(cells: Seq<Cell>, cols: int, y: int, x: int) -> Cell {
    cells[y * cols + x]
}

/// The markup for one rectangle: grid cells `(x0, y0)` through `(x1, y1)`
/// inclusive, filled with `color`.
pub open spec fn rect_chars(
    x0: int,
    y0: int,
    x1: int,
    y1: int,
    color: Rgb,
    cm: CalculatedFontMetrics,
) -> Seq<char> {
    "<rect x=\""@ + mpx_chars((x0 * cm.advance_mpx) as nat) + "\" y=\""@ + mpx_chars(
        (y0 * cm.line_height_mpx) as nat,
    ) + "\" width=\""@ + mpx_chars(((x1 - x0 + 1) * cm.advance_mpx) as nat) + "\" height=\""@
        + mpx_chars(((y1 - y0 + 1) * cm.line_height_mpx) as nat) + "\" style=\"fill: "@
        + color_chars(color) + ";\" />\n"@
}

/// Append the markup for one rectangle.
#[verifier::rlimit(60)]
fn push_rect(out: &mut String, x0: u16, y0: u16, x1: u16, y1: u16, color: Rgb, cm: CalculatedFontMetrics)
    requires
        cm.wf(),
        x0 <= x1,
        y0 <= y1,
    ensures
        final(out)@ == old(out)@ + rect_chars(x0 as int, y0 as int, x1 as int, y1 as int, color, cm),
{
    proof {
        lemma_mul_upper_bound(x0 as int, 65535, cm.advance_mpx as int, mpx_bound() as int);
        lemma_mul_upper_bound(y0 as int, 65535, cm.line_height_mpx as int, mpx_bound() as int);
        lemma_mul_upper_bound(
            x1 - x0 + 1,
            65536,
            cm.advance_mpx as int,
            mpx_bound() as int,
        );
        lemma_mul_upper_bound(
            y1 - y0 + 1,
            65536,
            cm.line_height_mpx as int,
            mpx_bound() as int,
        );
    }
    out.append("<rect x=\"");
    push_mpx(out, (x0 as u64) * cm.advance_mpx);
    out.append("\" y=\"");
    push_mpx(out, (y0 as u64) * cm.line_height_mpx);
    out.append("\" width=\"");
    push_mpx(out, ((x1 as u64) - (x0 as u64) + 1) * cm.advance_mpx);
    out.append("\" height=\"");
    push_mpx(out, ((y1 as u64) - (y0 as u64) + 1) * cm.line_height_mpx);
    out.append("\" style=\"fill: ");
    push_color(out, color);
    out.append(";\" />\n");
}

impl Rgb {
    /// This color as `#rrggbb` in lowercase hexadecimal.
    pub fn hex(&self) -> (r: String)
        ensures
            r@ == color_chars(*self),
    {
        let mut out = String::new();
        push_color(&mut out, *self);
        proof {
            assert(Seq::<char>::empty() + color_chars(*self) =~= color_chars(*self));
        }
        out
    }
}

/// The style of one text run: everything of a cell but its character and
/// background.
#[derive(Clone, Copy, Debug, PartialEq, Eq, Structural)]
pub struct TextStyle {
    pub fg: Rgb,
    pub bold: bool,
    pub italic: bool,
    pub underline: bool,
    pub strikethrough: bool,
}

/// The text style carried by a cell.
pub open spec fn style_of(cell: Cell) -> TextStyle {
    TextStyle {
        fg: cell.fg,
        bold: cell.bold,
        italic: cell.italic,
        underline: cell.underline,
        strikethrough: cell.strikethrough,
    }
}

impl TextStyle {
    /// The text style carried by a cell.
    pub fn from_cell(cell: &Cell) -> (r: TextStyle)
        ensures
            r == style_of(*cell),
    {
        TextStyle {
            fg: cell.fg,
            bold: cell.bold,
            italic: cell.italic,
            underline: cell.underline,
            strikethrough: cell.strikethrough,
        }
    }
}

/// Whether `c` is a whitespace character (the Unicode white space list).
pub open spec fn is_ws_char(c: char) -> bool {
    c == ' ' || c == '\u{0009}' || c == '\u{000A}' || c == '\u{000B}' || c == '\u{000C}' || c
        == '\u{000D}' || c == '\u{0085}' || c == '\u{00A0}' || c == '\u{1680}' || ('\u{2000}' <= c
        && c <= '\u{200A}') || c == '\u{2028}' || c == '\u{2029}' || c == '\u{202F}' || c
        == '\u{205F}' || c == '\u{3000}'
}

/// Whether `c` is a whitespace character.
fn is_ws(c: char) -> (r: bool)
    ensures
        r == is_ws_char(c),
{
    c == ' ' || c == '\u{0009}' || c == '\u{000A}' || c == '\u{000B}' || c == '\u{000C}' || c
        == '\u{000D}' || c == '\u{0085}' || c == '\u{00A0}' || c == '\u{1680}' || ('\u{2000}' <= c
        && c <= '\u{200A}') || c == '\u{2028}' || c == '\u{2029}' || c == '\u{202F}' || c
        == '\u{205F}' || c == '\u{3000}'
}

/// `chars` with its trailing whitespace removed.
pub open spec fn trim_ws(chars: Seq<char>) -> Seq<char>
    decreases chars.len(),
{
    if chars.len() > 0 && is_ws_char(chars.last()) {
        trim_ws(chars.drop_last())
    } else {
        chars
    }
}

/// The encoding of one character inside a text element: a space after a
/// space becomes a numeric non-breaking-space reference so that repeated
/// spaces survive whitespace collapse, and the markup characters `<` and `&`
/// are escaped.
pub open spec fn enc_char(c: char, prev_space: bool) -> Seq<char> {
    if c == ' ' {
        if prev_space {
            "&#160;"@
        } else {
            " "@
        }
    } else if c == '<' {
        "&lt;"@
    } else if c == '&' {
        "&amp;"@
    } else {
        seq![c]
    }
}

/// The encoding of a whole text run, given whether the character before the
/// run was a space.
pub open spec fn escape_run(chars: Seq<char>, prev_space: bool) -> Seq<char>
    decreases chars.len(),
{
    if chars.len() == 0 {
        Seq::empty()
    } else {
        enc_char(chars[0], prev_space) + escape_run(chars.skip(1), chars[0] == ' ')
    }
}

/// The markup for one text run at column `x` of row `y`. The run's trailing
/// whitespace is dropped before emission.
pub open spec fn text_chars(
    x: int,
    y: int,
    run: Seq<char>,
    style: TextStyle,
    cm: CalculatedFontMetrics,
) -> Seq<char> {
    let trimmed = trim_ws(run);
    "<text x=\""@ + mpx_chars((x * cm.advance_mpx) as nat) + "\" y=\""@ + mpx_chars(
        ((y + 1) * cm.line_height_mpx - cm.descent_mpx) as nat,
    ) + "\" textLength=\""@ + mpx_chars((trimmed.len() * cm.advance_mpx) as nat)
        + "\" style=\"fill: "@ + color_chars(style.fg) + ";"@ + (if style.bold {
        " font-weight: 600;"@
    } else {
        Seq::empty()
    }) + (if style.italic {
        " font-style: italic;"@
    } else {
        Seq::empty()
    }) + (if style.underline || style.strikethrough {
        " "@ + (if style.underline {
            " underline"@
        } else {
            Seq::empty()
        }) + (if style.strikethrough {
            " line-through"@
        } else {
            Seq::empty()
        })
    } else {
        Seq::empty()
    }) + "\">"@ + escape_run(trimmed, false) + "</text>\n"@
}

/// Append the markup for one text run.
#[verifier::rlimit(60)]
fn push_text(
    out: &mut String,
    x: u16,
    y: u16,
    run: &Vec<char>,
    style: &TextStyle,
    cm: CalculatedFontMetrics,
)
    requires
        cm.wf(),
        run@.len() <= 65535,
    ensures
        final(out)@ == old(out)@ + text_chars(x as int, y as int, run@, *style, cm),
{
    // trim trailing whitespace
    let mut e: usize = run.len();
    proof {
        assert(run@.take(e as int) =~= run@);
    }
    while e > 0 && is_ws(run[e - 1])
        invariant
            e <= run@.len(),
            trim_ws(run@) == trim_ws(run@.take(e as int)),
        decreases e,
    {
        proof {
            assert(run@.take(e as int).drop_last() =~= run@.take(e - 1));
            assert(run@.take(e as int).last() == run@[e - 1]);
        }
        e = e - 1;
    }
    proof {
        if e > 0 {
            assert(run@.take(e as int).last() == run@[e - 1]);
        }
        assert(trim_ws(run@.take(e as int)) == run@.take(e as int));
    }
    let ghost trimmed = trim_ws(run@);

    proof {
        lemma_mul_upper_bound(x as int, 65535, cm.advance_mpx as int, mpx_bound() as int);
        lemma_mul_upper_bound(y + 1, 65536, cm.line_height_mpx as int, mpx_bound() as int);
        vstd::arithmetic::mul::lemma_mul_inequality(1, y + 1, cm.line_height_mpx as int);
        lemma_mul_upper_bound(e as int, 65535, cm.advance_mpx as int, mpx_bound() as int);
    }
    let mut frag = String::new();
    frag.append("<text x=\"");
    proof {
        assert(frag@ =~= "<text x=\""@);
    }
    push_mpx(&mut frag, (x as u64) * cm.advance_mpx);
    frag.append("\" y=\"");
    push_mpx(&mut frag, ((y as u64) + 1) * cm.line_height_mpx - cm.descent_mpx);
    frag.append("\" textLength=\"");
    push_mpx(&mut frag, (e as u64) * cm.advance_mpx);
    frag.append("\" style=\"fill: ");
    push_color(&mut frag, style.fg);
    frag.append(";");

    let ghost acc_fill = frag@;
    if style.bold {
        frag.append(" font-weight: 600;");
    }
    proof {
        if !style.bold {
            assert(frag@ =~= acc_fill + Seq::<char>::empty());
        }
    }
    let ghost acc_bold = frag@;
    if style.italic {
        frag.append(" font-style: italic;");
    }
    proof {
        if !style.italic {
            assert(frag@ =~= acc_bold + Seq::<char>::empty());
        }
    }
    let ghost acc_italic = frag@;
    if style.underline || style.strikethrough {
        frag.append(" ");
        if style.underline {
            frag.append(" underline");
        }
        proof {
            if !style.underline {
                assert(frag@ =~= (acc_italic + " "@) + Seq::<char>::empty());
            }
        }
        let ghost acc_u = frag@;
        if style.strikethrough {
            frag.append(" line-through");
        }
        proof {
            let upart = if style.underline {
                " underline"@
            } else {
                Seq::<char>::empty()
            };
            let spart = if style.strikethrough {
                " line-through"@
            } else {
                Seq::<char>::empty()
            };
            if !style.strikethrough {
                assert(frag@ =~= acc_u + Seq::<char>::empty());
            }
            seq_add_assoc(acc_italic, " "@, upart);
            seq_add_assoc(acc_italic, " "@ + upart, spart);
            assert(frag@ == acc_italic + (" "@ + upart + spart));
        }
    }
    proof {
        if !(style.underline || style.strikethrough) {
            assert(frag@ =~= acc_italic + Seq::<char>::empty());
        }
    }
    frag.append("\">");

    // escape the trimmed run
    let mut i: usize = 0;
    let mut prev_space = false;
    let ghost mid = frag@;
    proof {
        assert(trimmed.skip(0) =~= trimmed);
    }
    while i < e
        invariant
            i <= e,
            e <= run@.len(),
            trimmed == run@.take(e as int),
            frag@ + escape_run(trimmed.skip(i as int), prev_space) == mid + escape_run(
                trimmed,
                false,
            ),
        decreases e - i,
    {
        let c = run[i];
        let ghost before = frag@;
        let ghost p0 = prev_space;
        let ghost rest = trimmed.skip(i + 1);
        proof {
            assert(trimmed.skip(i as int)[0] == run@[i as int]);
            assert(trimmed.skip(i as int).skip(1) =~= rest);
            assert(escape_run(trimmed.skip(i as int), p0) == enc_char(c, p0) + escape_run(
                rest,
                c == ' ',
            ));
        }
        if c == ' ' {
            if prev_space {
                frag.append("&#160;");
            } else {
                frag.append(" ");
            }
        } else if c == '<' {
            frag.append("&lt;");
        } else if c == '&' {
            frag.append("&amp;");
        } else {
            push_char(&mut frag, c);
            proof {
                assert(frag@ =~= before + enc_char(c, p0));
            }
        }
        proof {
            assert(frag@ == before + enc_char(c, p0));
            seq_add_assoc(before, enc_char(c, p0), escape_run(rest, c == ' '));
        }
        prev_space = c == ' ';
        i = i + 1;
    }
    proof {
        assert(trimmed.skip(e as int) =~= Seq::<char>::empty());
        assert(frag@ + Seq::<char>::empty() =~= frag@);
    }
    frag.append("</text>\n");
    proof {
        assert(frag@ == text_chars(x as int, y as int, run@, *style, cm));
    }
    out.append(frag.as_str());
}

/// Sequence concatenation is associative.
proof fn seq_add_assoc<T>(a: Seq<T>, b: Seq<T>, c: Seq<T>)
    ensures
        (a + b) + c == a + (b + c),
{
    assert((a + b) + c =~= a + (b + c));
}

/// How far a run of cells with background `bg` extends to the right of
/// column `x` on row `y`: the last column of the maximal consecutive run.
pub open spec fn run_end_x(cells: Seq<Cell>, cols: int, y: int, x: int, bg: Rgb) -> int
    decreases cols - x,
{
    if x + 1 < cols && cell_at(cells, cols, y, x + 1).bg == bg {
        run_end_x(cells, cols, y, x + 1, bg)
    } else {
        x
    }
}

/// Whether every cell of row `y` in columns `lo..=hi` has background `bg`.
pub open spec fn row_matches(cells: Seq<Cell>, cols: int, y: int, lo: int, hi: int, bg: Rgb) -> bool {
    forall|x: int| lo <= x <= hi ==> cell_at(cells, cols, y, x).bg == bg
}

/// How far the rectangle anchored at `(x0, y0)` extends downward from row
/// `y`: rows keep joining while their cells in columns `x0 + 1` through the
/// right edge of the row all carry `bg`. The anchor column itself is left
/// out of the test, mirroring the horizontal pass, which starts at
/// `x0 + 1`.
pub open spec fn run_end_y(
    cells: Seq<Cell>,
    lines: int,
    cols: int,
    y: int,
    x0: int,
    bg: Rgb,
) -> int
    decreases lines - y,
{
    if y + 1 < lines && row_matches(cells, cols, y + 1, x0 + 1, cols - 1, bg) {
        run_end_y(cells, lines, cols, y + 1, x0, bg)
    } else {
        y
    }
}

/// `drawn` with every position of the rectangle `(x0, y0)..=(x1, y1)`
/// switched on.
pub open spec fn mark_rect(
    drawn: Seq<bool>,
    cols: int,
    x0: int,
    y0: int,
    x1: int,
    y1: int,
) -> Seq<bool> {
    Seq::new(
        drawn.len(),
        |i: int| if x0 <= i % cols <= x1 && y0 <= i / cols <= y1 {
            true
        } else {
            drawn[i]
        },
    )
}

/// The rectangle markup emitted by the coalescing pass from grid position
/// `(y, x)` onward, given which positions are already drawn. At each
/// undrawn position whose background differs from the majority, a rectangle
/// is grown right and then down, its cells are marked drawn, and the scan
/// resumes at the next column.
pub open spec fn rects_from(
    cells: Seq<Cell>,
    lines: int,
    cols: int,
    main: Rgb,
    y: int,
    x: int,
    drawn: Seq<bool>,
    cm: CalculatedFontMetrics,
) -> Seq<char>
    decreases lines - y, cols - x,
{
    if y < 0 || y >= lines || cols <= 0 {
        Seq::empty()
    } else if x < 0 || x >= cols {
        rects_from(cells, lines, cols, main, y + 1, 0, drawn, cm)
    } else {
        let i = y * cols + x;
        let bg = cells[i].bg;
        if drawn[i] || bg == main {
            rects_from(cells, lines, cols, main, y, x + 1, drawn, cm)
        } else {
            let ex = run_end_x(cells, cols, y, x, bg);
            let ey = run_end_y(cells, lines, cols, y, x, bg);
            let d2 = mark_rect(drawn, cols, x, y, ex, ey);
            rect_chars(x, y, ex, ey, bg, cm) + rects_from(cells, lines, cols, main, y, x + 1, d2, cm)
        }
    }
}

/// Append the rectangle markup of the coalescing pass over the whole grid.
#[verifier::rlimit(100)]
fn push_rects(out: &mut String, screen: &Screen, main: Rgb, cm: CalculatedFontMetrics)
    requires
        screen.wf(),
        cm.wf(),
    ensures
        final(out)@ == old(out)@ + rects_from(
            screen.spec_cells(),
            screen.spec_lines() as int,
            screen.spec_columns() as int,
            main,
            0,
            0,
            Seq::new(screen.spec_cells().len(), |i: int| false),
            cm,
        ),
{
    let lines = screen.lines();
    let columns = screen.columns();
    let cells_v = screen.cells();
    let ghost cells = screen.spec_cells();
    let ghost el = lines as int;
    let ghost ec = columns as int;
    let total = cells_v.len();
    let mut drawn: Vec<bool> = Vec::new();
    let mut t: usize = 0;
    while t < total
        invariant
            drawn@.len() == t,
            t <= total,
            forall|j: int| 0 <= j < t ==> drawn@[j] == false,
        decreases total - t,
    {
        drawn.push(false);
        t = t + 1;
    }
    proof {
        assert(drawn@ =~= Seq::new(cells.len(), |i: int| false));
    }
    let ghost base = out@;
    let ghost whole = rects_from(cells, el, ec, main, 0, 0, drawn@, cm);
    if columns == 0 {
        proof {
            assert(whole == Seq::<char>::empty());
            assert(out@ =~= out@ + Seq::<char>::empty());
        }
        return ;
    }
    let mut y0: u16 = 0;
    while y0 < lines
        invariant
            y0 <= lines,
            el == lines as int,
            ec == columns as int,
            columns == screen.spec_columns(),
            lines == screen.spec_lines(),
            columns >= 1,
            cells == screen.spec_cells(),
            cells_v@ == cells,
            screen.wf(),
            cm.wf(),
            drawn@.len() == cells.len(),
            out@ + rects_from(cells, el, ec, main, y0 as int, 0, drawn@, cm) == base + whole,
        decreases lines - y0,
    {
        let mut x0: u16 = 0;
        while x0 < columns
            invariant
                x0 <= columns,
                y0 < lines,
                el == lines as int,
                ec == columns as int,
                columns == screen.spec_columns(),
                lines == screen.spec_lines(),
                columns >= 1,
                cells == screen.spec_cells(),
                cells_v@ == cells,
                screen.wf(),
                cm.wf(),
                drawn@.len() == cells.len(),
                out@ + rects_from(cells, el, ec, main, y0 as int, x0 as int, drawn@, cm) == base
                    + whole,
            decreases columns - x0,
        {
            let i = screen.idx(y0, x0);
            proof {
                lemma_row_major_bound(y0 as int, x0 as int, el, ec);
            }
            let bg = cells_v[i].bg;
            if drawn[i] || bg == main {
                proof {
                    assert(rects_from(cells, el, ec, main, y0 as int, x0 as int, drawn@, cm)
                        == rects_from(cells, el, ec, main, y0 as int, x0 + 1, drawn@, cm));
                }
            } else {
                // grow right
                let mut end_x: u16 = x0;
                let mut x1: u16 = x0;
                while x1 + 1 < columns
                    invariant_except_break
                        x0 <= end_x < columns,
                        x1 == end_x,
                        y0 < lines,
                        el == lines as int,
                ec == columns as int,
                columns == screen.spec_columns(),
                        lines == screen.spec_lines(),
                        cells == screen.spec_cells(),
                        cells_v@ == cells,
                        screen.wf(),
                        run_end_x(cells, ec, y0 as int, x0 as int, bg) == run_end_x(
                            cells,
                            ec,
                            y0 as int,
                            end_x as int,
                            bg,
                        ),
                    ensures
                        x0 <= end_x < columns,
                        end_x == run_end_x(cells, ec, y0 as int, x0 as int, bg),
                    decreases columns - x1,
                {
                    let j = screen.idx(y0, x1 + 1);
                    proof {
                        lemma_row_major_bound(y0 as int, x1 + 1, el, ec);
                    }
                    if cells_v[j].bg == bg {
                        end_x = x1 + 1;
                        x1 = x1 + 1;
                    } else {
                        break ;
                    }
                }
                // grow down
                let mut end_y: u16 = y0;
                let mut y1: u16 = y0;
                while y1 + 1 < lines
                    invariant_except_break
                        y0 <= end_y < lines,
                        y1 == end_y,
                        x0 <= end_x < columns,
                        el == lines as int,
                ec == columns as int,
                columns == screen.spec_columns(),
                        lines == screen.spec_lines(),
                        cells == screen.spec_cells(),
                        cells_v@ == cells,
                        screen.wf(),
                        run_end_y(cells, el, ec, y0 as int, x0 as int, bg) == run_end_y(
                            cells,
                            el,
                            ec,
                            end_y as int,
                            x0 as int,
                            bg,
                        ),
                    ensures
                        y0 <= end_y < lines,
                        end_y == run_end_y(cells, el, ec, y0 as int, x0 as int, bg),
                    decreases lines - y1,
                {
                    // does row y1 + 1 join the rectangle?
                    let mut all = true;
                    let mut xx: u16 = x0 + 1;
                    while xx < columns
                        invariant_except_break
                            all,
                            x0 + 1 <= xx <= columns,
                            y1 + 1 < lines,
                            x0 <= end_x < columns,
                            el == lines as int,
                ec == columns as int,
                columns == screen.spec_columns(),
                            lines == screen.spec_lines(),
                            cells == screen.spec_cells(),
                            cells_v@ == cells,
                            screen.wf(),
                            forall|xp: int|
                                x0 + 1 <= xp < xx ==> #[trigger] cell_at(cells, ec, y1 + 1, xp).bg
                                    == bg,
                        ensures
                            all == row_matches(cells, ec, y1 + 1, x0 + 1, ec - 1, bg),
                        decreases columns - xx,
                    {
                        let j = screen.idx(y1 + 1, xx);
                        proof {
                            lemma_row_major_bound(y1 + 1, xx as int, el, ec);
                        }
                        if cells_v[j].bg != bg {
                            all = false;
                            proof {
                                assert(cell_at(cells, ec, y1 + 1, xx as int).bg != bg);
                                assert(!row_matches(cells, ec, y1 + 1, x0 + 1, ec - 1, bg));
                            }
                            break ;
                        }
                        xx = xx + 1;
                    }
                    if all {
                        end_y = y1 + 1;
                        y1 = y1 + 1;
                    } else {
                        break ;
                    }
                }
                // mark the rectangle as drawn
                let ghost d0 = drawn@;
                proof {
                    assert(drawn@ =~= mark_upto(
                        d0,
                        ec,
                        x0 as int,
                        end_x as int,
                        y0 as int,
                        y0 as int,
                        x0 as int,
                    ));
                }
                let mut my: u16 = y0;
                while my <= end_y
                    invariant
                        y0 <= my <= end_y + 1,
                        y0 <= end_y < lines,
                        x0 <= end_x < columns,
                        el == lines as int,
                ec == columns as int,
                columns == screen.spec_columns(),
                        lines == screen.spec_lines(),
                        columns >= 1,
                        cells == screen.spec_cells(),
                        cells_v@ == cells,
                        screen.wf(),
                        drawn@.len() == d0.len(),
                        d0.len() == cells.len(),
                        drawn@ == mark_upto(
                            d0,
                            ec,
                            x0 as int,
                            end_x as int,
                            y0 as int,
                            my as int,
                            x0 as int,
                        ),
                    decreases end_y + 1 - my,
                {
                    let mut mx: u16 = x0;
                    while mx <= end_x
                        invariant
                            x0 <= mx <= end_x + 1,
                            y0 <= my <= end_y,
                            y0 <= end_y < lines,
                            x0 <= end_x < columns,
                            el == lines as int,
                ec == columns as int,
                columns == screen.spec_columns(),
                            lines == screen.spec_lines(),
                            columns >= 1,
                            cells == screen.spec_cells(),
                            cells_v@ == cells,
                            screen.wf(),
                            drawn@.len() == d0.len(),
                            d0.len() == cells.len(),
                            drawn@ == mark_upto(
                                d0,
                                ec,
                                x0 as int,
                                end_x as int,
                                y0 as int,
                                my as int,
                                mx as int,
                            ),
                        decreases end_x + 1 - mx,
                    {
                        let j = screen.idx(my, mx);
                        proof {
                            lemma_row_major_bound(my as int, mx as int, el, ec);
                            lemma_cell_index(my * ec + mx, ec, my as int, mx as int);
                        }
                        drawn.set(j, true);
                        proof {
                            assert forall|p: int| 0 <= p < drawn@.len() implies drawn@[p]
                                == mark_upto(
                                d0,
                                ec,
                                x0 as int,
                                end_x as int,
                                y0 as int,
                                my as int,
                                mx + 1,
                            )[p] by {
                                vstd::arithmetic::div_mod::lemma_fundamental_div_mod(p, ec);
                                if p == j {
                                    assert(p / ec == my as int && p % ec == mx as int);
                                } else {
                                    assert(drawn@[p] == mark_upto(
                                        d0,
                                        ec,
                                        x0 as int,
                                        end_x as int,
                                        y0 as int,
                                        my as int,
                                        mx as int,
                                    )[p]);
                                    if p / ec == my as int && p % ec == mx as int {
                                        assert(p == ec * (p / ec) + p % ec);
                                        vstd::arithmetic::mul::lemma_mul_is_commutative(
                                            ec,
                                            my as int,
                                        );
                                        assert(j == my as int * ec + mx as int);
                                        assert(false);
                                    }
                                }
                            }
                            assert(drawn@ =~= mark_upto(
                                d0,
                                ec,
                                x0 as int,
                                end_x as int,
                                y0 as int,
                                my as int,
                                mx + 1,
                            ));
                        }
                        mx = mx + 1;
                    }
                    proof {
                        assert(drawn@ =~= mark_upto(
                            d0,
                            ec,
                            x0 as int,
                            end_x as int,
                            y0 as int,
                            my + 1,
                            x0 as int,
                        ));
                    }
                    my = my + 1;
                }
                proof {
                    assert(drawn@ =~= mark_rect(
                        d0,
                        ec,
                        x0 as int,
                        y0 as int,
                        end_x as int,
                        end_y as int,
                    ));
                    assert(rects_from(cells, el, ec, main, y0 as int, x0 as int, d0, cm)
                        == rect_chars(x0 as int, y0 as int, end_x as int, end_y as int, bg, cm)
                        + rects_from(cells, el, ec, main, y0 as int, x0 + 1, drawn@, cm));
                }
                let ghost out_pre = out@;
                push_rect(out, x0, y0, end_x, end_y, bg, cm);
                proof {
                    seq_add_assoc(
                        out_pre,
                        rect_chars(x0 as int, y0 as int, end_x as int, end_y as int, bg, cm),
                        rects_from(cells, el, ec, main, y0 as int, x0 + 1, drawn@, cm),
                    );
                }
            }
            x0 = x0 + 1;
        }
        proof {
            assert(rects_from(cells, el, ec, main, y0 as int, ec, drawn@, cm) == rects_from(
                cells,
                el,
                ec,
                main,
                y0 + 1,
                0,
                drawn@,
                cm,
            ));
        }
        y0 = y0 + 1;
    }
    proof {
        assert(rects_from(cells, el, ec, main, el, 0, drawn@, cm) == Seq::<char>::empty());
        assert(out@ =~= out@ + Seq::<char>::empty());
    }
}

/// `drawn` with the rectangle positions switched on, row by row up to row
/// `y`, and within row `y` up to column `x`.
spec fn mark_upto(
    d0: Seq<bool>,
    cols: int,
    x0: int,
    x1: int,
    y0: int,
    y: int,
    x: int,
) -> Seq<bool> {
    Seq::new(
        d0.len(),
        |i: int| if x0 <= i % cols <= x1 && (y0 <= i / cols < y || (i / cols == y && x0 <= i % cols
            < x)) {
            true
        } else {
            d0[i]
        },
    )
}


/// A row-major index is within the grid.
proof fn lemma_row_major_bound(y: int, x: int, lines: int, cols: int)
    requires
        0 <= y < lines,
        0 <= x < cols,
    ensures
        0 <= y * cols + x < lines * cols,
{
    vstd::arithmetic::mul::lemma_mul_inequality(y, lines - 1, cols);
    vstd::arithmetic::mul::lemma_mul_is_distributive_sub(cols, lines, 1);
    vstd::arithmetic::mul::lemma_mul_nonnegative(y, cols);
}

/// A row-major index decomposes uniquely into its row and column.
proof fn lemma_cell_index(i: int, c: int, q: int, r: int)
    requires
        c >= 1,
        0 <= r < c,
        i == q * c + r,
    ensures
        i / c == q,
        i % c == r,
{
    lemma_fundamental_div_mod_converse_mod(i, c, q, r);
    lemma_fundamental_div_mod_converse_div(i, c, q, r);
}

/// The text markup emitted for row `y` from column `x` onward, carrying the
/// run gathered so far, its style, and the column where it began. A style
/// change flushes the run; runs never begin with a plain space.
pub open spec fn row_text_from(
    cells: Seq<Cell>,
    cols: int,
    y: int,
    x: int,
    run: Seq<char>,
    style: TextStyle,
    start_x: int,
    cm: CalculatedFontMetrics,
) -> Seq<char>
    decreases cols - x,
{
    if x < 0 || x >= cols {
        if run.len() > 0 {
            text_chars(start_x, y, run, style, cm)
        } else {
            Seq::empty()
        }
    } else {
        let cell = cell_at(cells, cols, y, x);
        let st = style_of(cell);
        if st != style {
            (if run.len() > 0 {
                text_chars(start_x, y, run, style, cm)
            } else {
                Seq::empty()
            }) + (if cell.c == ' ' {
                row_text_from(cells, cols, y, x + 1, Seq::empty(), st, x, cm)
            } else {
                row_text_from(cells, cols, y, x + 1, seq![cell.c], st, x, cm)
            })
        } else {
            if run.len() == 0 {
                if cell.c == ' ' {
                    row_text_from(cells, cols, y, x + 1, Seq::empty(), style, x, cm)
                } else {
                    row_text_from(cells, cols, y, x + 1, seq![cell.c], style, x, cm)
                }
            } else {
                row_text_from(cells, cols, y, x + 1, run.push(cell.c), style, start_x, cm)
            }
        }
    }
}

/// The text markup of rows `y` onward: each row starts a fresh run in the
/// style of its leftmost cell.
pub open spec fn texts_from(
    cells: Seq<Cell>,
    lines: int,
    cols: int,
    y: int,
    cm: CalculatedFontMetrics,
) -> Seq<char>
    decreases lines - y,
{
    if y < 0 || y >= lines || cols <= 0 {
        Seq::empty()
    } else {
        row_text_from(
            cells,
            cols,
            y,
            0,
            Seq::empty(),
            style_of(cell_at(cells, cols, y, 0)),
            0,
            cm,
        ) + texts_from(cells, lines, cols, y + 1, cm)
    }
}

/// Append the text markup of every row of the grid.
#[verifier::rlimit(100)]
fn push_texts(out: &mut String, screen: &Screen, cm: CalculatedFontMetrics)
    requires
        screen.wf(),
        cm.wf(),
    ensures
        final(out)@ == old(out)@ + texts_from(
            screen.spec_cells(),
            screen.spec_lines() as int,
            screen.spec_columns() as int,
            0,
            cm,
        ),
{
    let lines = screen.lines();
    let columns = screen.columns();
    let cells_v = screen.cells();
    let ghost cells = screen.spec_cells();
    let ghost el = lines as int;
    let ghost ec = columns as int;
    let ghost base = out@;
    let ghost whole = texts_from(cells, el, ec, 0, cm);
    if columns == 0 {
        proof {
            assert(whole == Seq::<char>::empty());
            assert(out@ =~= out@ + Seq::<char>::empty());
        }
        return ;
    }
    let mut y: u16 = 0;
    while y < lines
        invariant
            y <= lines,
            el == lines as int,
            ec == columns as int,
            columns == screen.spec_columns(),
            lines == screen.spec_lines(),
            columns >= 1,
            cells == screen.spec_cells(),
            cells_v@ == cells,
            screen.wf(),
            cm.wf(),
            out@ + texts_from(cells, el, ec, y as int, cm) == base + whole,
        decreases lines - y,
    {
        let i0 = screen.idx(y, 0);
        proof {
            lemma_row_major_bound(y as int, 0, el, ec);
        }
        let mut style = TextStyle::from_cell(&cells_v[i0]);
        let mut run: Vec<char> = Vec::new();
        let mut start_x: u16 = 0;
        let ghost row_base = out@;
        let ghost row_whole = row_text_from(
            cells,
            ec,
            y as int,
            0,
            Seq::empty(),
            style_of(cell_at(cells, ec, y as int, 0)),
            0,
            cm,
        );
        proof {
            assert(run@ =~= Seq::<char>::empty());
        }
        let mut x: u16 = 0;
        while x < columns
            invariant
                x <= columns,
                y < lines,
                el == lines as int,
                ec == columns as int,
                columns == screen.spec_columns(),
                lines == screen.spec_lines(),
                columns >= 1,
                cells == screen.spec_cells(),
                cells_v@ == cells,
                screen.wf(),
                cm.wf(),
                run@.len() <= x as int,
                out@ + row_text_from(
                    cells,
                    ec,
                    y as int,
                    x as int,
                    run@,
                    style,
                    start_x as int,
                    cm,
                ) == row_base + row_whole,
            decreases columns - x,
        {
            let i = screen.idx(y, x);
            proof {
                lemma_row_major_bound(y as int, x as int, el, ec);
            }
            let cell = cells_v[i];
            let st = TextStyle::from_cell(&cell);
            let ghost b_out = out@;
            let ghost b_run = run@;
            let ghost b_style = style;
            let ghost b_sx = start_x as int;
            if st != style {
                let ghost flushed = if b_run.len() > 0 {
                    text_chars(b_sx, y as int, b_run, b_style, cm)
                } else {
                    Seq::<char>::empty()
                };
                if run.len() > 0 {
                    push_text(out, start_x, y, &run, &style, cm);
                }
                run = Vec::new();
                style = st;
                start_x = x;
                if cell.c != ' ' {
                    run.push(cell.c);
                }
                proof {
                    let rest = if cell.c == ' ' {
                        row_text_from(cells, ec, y as int, x + 1, Seq::<char>::empty(), st, x as int, cm)
                    } else {
                        row_text_from(cells, ec, y as int, x + 1, seq![cell.c], st, x as int, cm)
                    };
                    if cell.c != ' ' {
                        assert(run@ =~= seq![cell.c]);
                    } else {
                        assert(run@ =~= Seq::<char>::empty());
                    }
                    assert(row_text_from(cells, ec, y as int, x as int, b_run, b_style, b_sx, cm)
                        == flushed + rest);
                    if b_run.len() > 0 {
                        seq_add_assoc(b_out, flushed, rest);
                    } else {
                        assert(Seq::<char>::empty() + rest =~= rest);
                    }
                }
            } else {
                if run.len() == 0 {
                    start_x = x;
                    if cell.c != ' ' {
                        run.push(cell.c);
                    }
                    proof {
                        if cell.c != ' ' {
                            assert(run@ =~= seq![cell.c]);
                        } else {
                            assert(run@ =~= Seq::<char>::empty());
                        }
                    }
                } else {
                    run.push(cell.c);
                }
            }
            x = x + 1;
        }
        if run.len() > 0 {
            push_text(out, start_x, y, &run, &style, cm);
        }
        proof {
            assert(out@ == row_base + row_whole);
            assert(texts_from(cells, el, ec, y as int, cm) == row_whole + texts_from(
                cells,
                el,
                ec,
                y + 1,
                cm,
            ));
            seq_add_assoc(row_base, row_whole, texts_from(cells, el, ec, y + 1, cm));
        }
        y = y + 1;
    }
    proof {
        assert(texts_from(cells, el, ec, el, cm) == Seq::<char>::empty());
        assert(out@ =~= out@ + Seq::<char>::empty());
    }
}

/// The opening `<svg>` tag with the viewBox sized to the grid.
pub open spec fn svg_header_chars(lines: int, cols: int, cm: CalculatedFontMetrics) -> Seq<char> {
    "<svg viewBox=\"0 0 "@ + mpx_chars((cols * cm.advance_mpx) as nat) + " "@ + mpx_chars(
        (lines * cm.line_height_mpx) as nat,
    ) + "\" xmlns=\"http://www.w3.org/2000/svg\">"@
}

/// The font-family entries for the configured fonts, from index `i` on:
/// each name quoted and followed by a comma.
pub open spec fn fonts_chars(fonts: Seq<Seq<char>>, i: int) -> Seq<char>
    decreases fonts.len() - i,
{
    if i < 0 || i >= fonts.len() {
        Seq::empty()
    } else {
        seq!['"'] + fonts[i] + "\", "@ + fonts_chars(fonts, i + 1)
    }
}

/// The style block: the configured fonts, then `monospace`, at the fixed
/// 12-pixel font size.
pub open spec fn style_chars(fonts: Seq<Seq<char>>) -> Seq<char> {
    "\n<style>\n  .screen {\n    font-family: "@ + fonts_chars(fonts, 0)
        + "monospace;\n    font-size: 12px;\n  }\n</style>\n<g class=\"screen\">\n"@
}

/// The closing tags.
pub open spec fn svg_footer_chars() -> Seq<char> {
    "</g>\n</svg>"@
}

/// The complete SVG markup for a screen: the header, the style block, one
/// full-screen rectangle in the most common background color, the coalesced
/// background rectangles, the text runs of every row, and the closing tags.
pub open spec fn svg_chars(
    cells: Seq<Cell>,
    lines: int,
    cols: int,
    fonts: Seq<Seq<char>>,
    m: FontMetrics,
) -> Seq<char> {
    let cm = calc_of(m);
    let main = most_common_bg(cells);
    svg_header_chars(lines, cols, cm) + style_chars(fonts) + rect_chars(
        0,
        0,
        if cols >= 1 {
            cols - 1
        } else {
            0
        },
        if lines >= 1 {
            lines - 1
        } else {
            0
        },
        main,
        cm,
    ) + rects_from(cells, lines, cols, main, 0, 0, Seq::new(cells.len(), |i: int| false), cm)
        + texts_from(cells, lines, cols, 0, cm) + svg_footer_chars()
}

impl Screen {
    /// Render this snapshot as a self-contained SVG document. `fonts` are
    /// included, in order, in the `font-family` style, which always ends
    /// with `monospace`.
    #[verifier::rlimit(100)]
    pub fn to_svg(&self, fonts: &Vec<String>, font_metrics: FontMetrics) -> (r: String)
        requires
            self.wf(),
            font_metrics.wf(),
        ensures
            r@ == svg_chars(
                self.spec_cells(),
                self.spec_lines() as int,
                self.spec_columns() as int,
                fonts@.map_values(|s: String| s@),
                font_metrics,
            ),
    {
        let cm = font_metrics.at_font_size();
        let main = most_common_color(self);
        let lines = self.lines();
        let columns = self.columns();
        proof {
            lemma_mul_upper_bound(columns as int, 65535, cm.advance_mpx as int, mpx_bound() as int);
            lemma_mul_upper_bound(
                lines as int,
                65535,
                cm.line_height_mpx as int,
                mpx_bound() as int,
            );
        }
        let mut out = String::new();
        out.append("<svg viewBox=\"0 0 ");
        proof {
            assert(out@ =~= "<svg viewBox=\"0 0 "@);
        }
        push_mpx(&mut out, (columns as u64) * cm.advance_mpx);
        out.append(" ");
        push_mpx(&mut out, (lines as u64) * cm.line_height_mpx);
        out.append("\" xmlns=\"http://www.w3.org/2000/svg\">");
        let ghost header = out@;

        out.append("\n<style>\n  .screen {\n    font-family: ");
        let ghost fseq = fonts@.map_values(|s: String| s@);
        let ghost mid = out@;
        proof {
            assert(fonts_chars(fseq, fonts@.len() as int) == Seq::<char>::empty());
        }
        let mut j: usize = 0;
        while j < fonts.len()
            invariant
                j <= fonts@.len(),
                fseq == fonts@.map_values(|s: String| s@),
                out@ + fonts_chars(fseq, j as int) == mid + fonts_chars(fseq, 0),
            decreases fonts@.len() - j,
        {
            let ghost b = out@;
            push_char(&mut out, '"');
            proof {
                assert(out@ =~= b + seq!['"']);
            }
            out.append(fonts[j].as_str());
            out.append("\", ");
            proof {
                assert(fseq[j as int] == fonts@[j as int]@);
                let rest = fonts_chars(fseq, j + 1);
                assert(fonts_chars(fseq, j as int) == seq!['"'] + fseq[j as int] + "\", "@
                    + rest);
                seq_add_assoc(b, seq!['"'], fseq[j as int]);
                seq_add_assoc(b, seq!['"'] + fseq[j as int], "\", "@);
                seq_add_assoc(b, seq!['"'] + fseq[j as int] + "\", "@, rest);
            }
            j = j + 1;
        }
        proof {
            assert(fonts_chars(fseq, j as int) == Seq::<char>::empty());
            assert(out@ + Seq::<char>::empty() =~= out@);
        }
        out.append("monospace;\n    font-size: 12px;\n  }\n</style>\n<g class=\"screen\">\n");
        proof {
            seq_add_assoc(
                header,
                "\n<style>\n  .screen {\n    font-family: "@,
                fonts_chars(fseq, 0),
            );
            seq_add_assoc(
                header,
                "\n<style>\n  .screen {\n    font-family: "@ + fonts_chars(fseq, 0),
                "monospace;\n    font-size: 12px;\n  }\n</style>\n<g class=\"screen\">\n"@,
            );
            assert(out@ == header + style_chars(fseq));
        }

        let x1 = if columns >= 1 {
            columns - 1
        } else {
            0
        };
        let y1 = if lines >= 1 {
            lines - 1
        } else {
            0
        };
        push_rect(&mut out, 0, 0, x1, y1, main, cm);
        push_rects(&mut out, self, main, cm);
        push_texts(&mut out, self, cm);
        out.append("</g>\n</svg>");
        out
    }
}

/// The rendered markup decomposes into exactly one header (one root
/// element), one style block, one full-screen rectangle filled with the
/// majority background, the coalesced rectangles, the text runs, and one
/// closing pair — in that order. In particular the first rectangle spans
/// the whole viewBox.
pub proof fn lemma_svg_structure(
    cells: Seq<Cell>,
    lines: int,
    cols: int,
    fonts: Seq<Seq<char>>,
    m: FontMetrics,
)
    ensures
        svg_chars(cells, lines, cols, fonts, m) == svg_header_chars(lines, cols, calc_of(m))
            + style_chars(fonts) + rect_chars(
            0,
            0,
            if cols >= 1 {
                cols - 1
            } else {
                0
            },
            if lines >= 1 {
                lines - 1
            } else {
                0
            },
            most_common_bg(cells),
            calc_of(m),
        ) + rects_from(
            cells,
            lines,
            cols,
            most_common_bg(cells),
            0,
            0,
            Seq::new(cells.len(), |i: int| false),
            calc_of(m),
        ) + texts_from(cells, lines, cols, 0, calc_of(m)) + svg_footer_chars(),
{
}

/// Rendering is deterministic: rendering the same snapshot twice, with the
/// same fonts and metrics, yields identical markup.
pub proof fn lemma_svg_idempotent(
    first: Seq<char>,
    second: Seq<char>,
    cells: Seq<Cell>,
    lines: int,
    cols: int,
    fonts: Seq<Seq<char>>,
    m: FontMetrics,
)
    requires
        first == svg_chars(cells, lines, cols, fonts, m),
        second == svg_chars(cells, lines, cols, fonts, m),
    ensures
        first == second,
{
}

/// The coalescing pass over a grid whose every background already matches
/// the majority emits nothing.
proof fn lemma_rects_all_main(
    cells: Seq<Cell>,
    lines: int,
    cols: int,
    main: Rgb,
    y: int,
    x: int,
    drawn: Seq<bool>,
    cm: CalculatedFontMetrics,
)
    requires
        cells.len() == lines * cols,
        forall|i: int| 0 <= i < cells.len() ==> #[trigger] cells[i].bg == main,
    ensures
        rects_from(cells, lines, cols, main, y, x, drawn, cm) == Seq::<char>::empty(),
    decreases lines - y, cols - x,
{
    if y < 0 || y >= lines || cols <= 0 {
    } else if x < 0 || x >= cols {
        lemma_rects_all_main(cells, lines, cols, main, y + 1, 0, drawn, cm);
    } else {
        lemma_row_major_bound(y, x, lines, cols);
        assert(cells[y * cols + x].bg == main);
        lemma_rects_all_main(cells, lines, cols, main, y, x + 1, drawn, cm);
    }
}

/// The distinct backgrounds of a uniform grid are exactly its one color.
proof fn lemma_uniform_distinct(cells: Seq<Cell>)
    requires
        cells.len() > 0,
        forall|i: int| 0 <= i < cells.len() ==> #[trigger] cells[i].bg == cells[0].bg,
    ensures
        distinct_bgs(cells) == seq![cells[0].bg],
    decreases cells.len(),
{
    if cells.len() == 1 {
        let d = distinct_bgs(cells.drop_last());
        assert(d =~= Seq::<Rgb>::empty());
        assert(!d.contains(cells.last().bg));
        assert(distinct_bgs(cells) =~= seq![cells[0].bg]);
    } else {
        assert forall|i: int| 0 <= i < cells.drop_last().len() implies #[trigger] cells.drop_last(
        )[i].bg == cells.drop_last()[0].bg by {
            assert(cells.drop_last()[i] == cells[i]);
        }
        lemma_uniform_distinct(cells.drop_last());
        let d = distinct_bgs(cells.drop_last());
        assert(cells.drop_last()[0] == cells[0]);
        assert(d[0] == cells[0].bg);
        assert(cells.last().bg == cells[0].bg);
        assert(d.contains(cells.last().bg));
        assert(distinct_bgs(cells) == d);
    }
}

/// For a uniform screen the majority background is the one color, the
/// coalescing pass emits no rectangle, and the markup carries exactly one
/// background rectangle: the full-screen one.
pub proof fn lemma_uniform_screen_one_rect(
    cells: Seq<Cell>,
    lines: int,
    cols: int,
    fonts: Seq<Seq<char>>,
    m: FontMetrics,
)
    requires
        lines >= 1,
        cols >= 1,
        cells.len() == lines * cols,
        cells.len() > 0,
        forall|i: int| 0 <= i < cells.len() ==> #[trigger] cells[i].bg == cells[0].bg,
    ensures
        most_common_bg(cells) == cells[0].bg,
        rects_from(
            cells,
            lines,
            cols,
            most_common_bg(cells),
            0,
            0,
            Seq::new(cells.len(), |i: int| false),
            calc_of(m),
        ) == Seq::<char>::empty(),
        svg_chars(cells, lines, cols, fonts, m) == (svg_header_chars(lines, cols, calc_of(m))
            + style_chars(fonts) + rect_chars(
            0,
            0,
            cols - 1,
            lines - 1,
            cells[0].bg,
            calc_of(m),
        )) + texts_from(cells, lines, cols, 0, calc_of(m)) + svg_footer_chars(),
{
    lemma_uniform_distinct(cells);
    let dl = distinct_bgs(cells);
    assert(best_from(dl, cells, 1, dl[0]) == dl[0]);
    assert(most_common_bg(cells) == cells[0].bg);
    lemma_rects_all_main(
        cells,
        lines,
        cols,
        cells[0].bg,
        0,
        0,
        Seq::new(cells.len(), |i: int| false),
        calc_of(m),
    );
    let h = svg_header_chars(lines, cols, calc_of(m));
    let st = style_chars(fonts);
    let r1 = rect_chars(0, 0, cols - 1, lines - 1, cells[0].bg, calc_of(m));
    let x = h + st + r1;
    assert(x + Seq::<char>::empty() =~= x);
}

/// A zero-by-zero screen renders to a well-formed document: the viewBox is
/// `0 0 0 0`, the one background rectangle falls back to black, and there
/// are no text elements.
pub proof fn lemma_empty_screen_svg(fonts: Seq<Seq<char>>, m: FontMetrics)
    ensures
        most_common_bg(Seq::<Cell>::empty()) == (Rgb { r: 0, g: 0, b: 0 }),
        svg_chars(Seq::<Cell>::empty(), 0, 0, fonts, m) == (svg_header_chars(0, 0, calc_of(m))
            + style_chars(fonts) + rect_chars(
            0,
            0,
            0,
            0,
            Rgb { r: 0, g: 0, b: 0 },
            calc_of(m),
        )) + svg_footer_chars(),
        svg_header_chars(0, 0, calc_of(m)) == "<svg viewBox=\"0 0 "@ + seq!['0'] + " "@
            + seq!['0'] + "\" xmlns=\"http://www.w3.org/2000/svg\">"@,
{
    let cm = calc_of(m);
    let e = Seq::<Cell>::empty();
    assert(rects_from(e, 0, 0, most_common_bg(e), 0, 0, Seq::new(e.len(), |i: int| false), cm)
        == Seq::<char>::empty());
    assert(texts_from(e, 0, 0, 0, cm) == Seq::<char>::empty());
    let h = svg_header_chars(0, 0, cm);
    let st = style_chars(fonts);
    let r1 = rect_chars(0, 0, 0, 0, Rgb { r: 0, g: 0, b: 0 }, cm);
    let x = h + st + r1;
    assert(x + Seq::<char>::empty() =~= x);
    assert((x + Seq::<char>::empty()) + Seq::<char>::empty() =~= x);
    assert(dec_chars(0) =~= seq!['0']);
    assert(mpx_chars((0 * cm.advance_mpx) as nat) == seq!['0']);
    assert(mpx_chars((0 * cm.line_height_mpx) as nat) == seq!['0']);
}

} // verus!
