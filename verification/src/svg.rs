//! The SVG synthesizer: renders a thumbnail configuration into a
//! complete SVG document, computing the vertical layout of the stacked
//! elements.
//!
//! With `n` visible elements, the element at position `i` sits at
//! vertical offset `(i - (n-1)/2) * weight_i`, centering the stack on
//! the canvas midpoint; a single element sits exactly at zero. Every
//! offset is a whole multiple of one eighth, so the library computes in
//! eighths and renders the exact short decimal the standard formatter
//! would print for the value.
use crate::numfmt::{dec_nat, fmt_u64};
use crate::strutil::{chars_of_str, push_char};
use crate::thumbnail::{BackgroundColor, BackgroundView, ConfigView, ThumbnailConfig};
use vstd::prelude::*;
use vstd::string::StringExecFns;

verus! {

pub open spec fn escape_char(ch: char) -> Seq<char> {
    if ch == '&' {
        "&amp;"@
    } else if ch == '<' {
        "&lt;"@
    } else if ch == '>' {
        "&gt;"@
    } else if ch == '"' {
        "&quot;"@
    } else if ch == '\'' {
        "&#x27;"@
    } else {
        seq![ch]
    }
}

/// The text with `&`, `<`, `>`, `"` and `'` replaced by their HTML
/// entities, character by character.
pub open spec fn escaped(s: Seq<char>) -> Seq<char>
    decreases s.len(),
{
    if s.len() == 0 {
        Seq::empty()
    } else {
        escaped(s.drop_last()) + escape_char(s.last())
    }
}

/// Escapes text for placement inside an SVG text element.
pub fn html_escape(s: &str) -> (r: String)
    ensures
        r@ == escaped(s@),
{
    let v = chars_of_str(s);
    let mut r = String::new();
    let mut i: usize = 0;
    while i < v.len()
        invariant
            0 <= i <= v@.len(),
            v@ == s@,
            r@ == escaped(v@.subrange(0, i as int)),
        decreases v@.len() - i,
    {
        let c = v[i];
        if c == '&' {
            r.append("&amp;");
        } else if c == '<' {
            r.append("&lt;");
        } else if c == '>' {
            r.append("&gt;");
        } else if c == '"' {
            r.append("&quot;");
        } else if c == '\'' {
            r.append("&#x27;");
        } else {
            push_char(&mut r, c);
            proof {
                assert(r@ =~= escaped(v@.subrange(0, i as int)) + seq![v@[i as int]]);
            }
        }
        proof {
            let pre = v@.subrange(0, i as int + 1);
            assert(pre.drop_last() =~= v@.subrange(0, i as int));
            assert(pre.last() == v@[i as int]);
        }
        i += 1;
    }
    proof {
        assert(v@.subrange(0, v@.len() as int) =~= v@);
    }
    r
}

/// The decimal digits after the point for `f` eighths, empty for zero:
/// exactly what the standard formatter prints for the fraction.
pub open spec fn frac_str(f: nat) -> Seq<char> {
    if f == 0 {
        Seq::empty()
    } else if f == 1 {
        ".125"@
    } else if f == 2 {
        ".25"@
    } else if f == 3 {
        ".375"@
    } else if f == 4 {
        ".5"@
    } else if f == 5 {
        ".625"@
    } else if f == 6 {
        ".75"@
    } else {
        ".875"@
    }
}

pub open spec fn eighths_mag(m: nat) -> Seq<char> {
    dec_nat(m / 8) + frac_str(m % 8)
}

/// The text the standard formatter prints for the value `k / 8`:
/// `neg_zero` tells a negative zero apart, which prints with its sign.
pub open spec fn eighths_str(k: int, neg_zero: bool) -> Seq<char> {
    if k < 0 {
        seq!['-'] + eighths_mag((-k) as nat)
    } else if k == 0 && neg_zero {
        seq!['-', '0']
    } else {
        eighths_mag(k as nat)
    }
}

fn append_frac(r: &mut String, f: u64)
    requires
        f < 8,
    ensures
        final(r)@ == old(r)@ + frac_str(f as nat),
{
    if f == 0 {
        proof {
            assert(old(r)@ + frac_str(0nat) =~= old(r)@);
        }
    } else if f == 1 {
        r.append(".125");
    } else if f == 2 {
        r.append(".25");
    } else if f == 3 {
        r.append(".375");
    } else if f == 4 {
        r.append(".5");
    } else if f == 5 {
        r.append(".625");
    } else if f == 6 {
        r.append(".75");
    } else {
        r.append(".875");
    }
}

fn fmt_eighths(k: i64, neg_zero: bool) -> (r: String)
    requires
        k > i64::MIN,
    ensures
        r@ == eighths_str(k as int, neg_zero),
{
    if k < 0 {
        let m: u64 = (-k) as u64;
        let mut r = String::from_str("-");
        let digits = fmt_u64(m / 8);
        r.append(digits.as_str());
        append_frac(&mut r, m % 8);
        proof {
            assert(seq!['-'] =~= "-"@) by {
                reveal_strlit("-");
            }
            assert(r@ =~= seq!['-'] + eighths_mag(m as nat));
        }
        r
    } else if k == 0 && neg_zero {
        let r = String::from_str("-0");
        proof {
            assert(r@ =~= seq!['-', '0']) by {
                reveal_strlit("-0");
            }
        }
        r
    } else {
        let m: u64 = k as u64;
        let mut r = fmt_u64(m / 8);
        append_frac(&mut r, m % 8);
        r
    }
}

/// The rendered vertical offset of the element at position `pos` among
/// `n` stacked elements with weight `q` quarters: `(2 pos - (n-1)) * q`
/// eighths, and exactly zero for a single element.
pub open spec fn offset_text(n: int, pos: int, q: int) -> Seq<char> {
    if n == 1 {
        seq!['0']
    } else {
        eighths_str((2 * pos - (n - 1)) * q, 2 * pos - (n - 1) < 0)
    }
}

/// Law: with a single visible element the vertical offset is exactly
/// zero, whatever the element's position or weight.
pub proof fn lemma_single_element_centered(n: int, pos: int, q: int)
    requires
        n == 1,
    ensures
        offset_text(n, pos, q) == seq!['0'],
{
}

fn fmt_offset(n: usize, pos: usize, q: u64) -> (r: String)
    requires
        1 <= n <= 3,
        pos < n,
        q < 0x400000000,
    ensures
        r@ == offset_text(n as int, pos as int, q as int),
{
    if n == 1 {
        let r = String::from_str("0");
        proof {
            assert(r@ =~= seq!['0']) by {
                reveal_strlit("0");
            }
        }
        r
    } else {
        let coeff: i64 = 2 * (pos as i64) - ((n - 1) as i64);
        proof {
            assert(-2 <= coeff <= 2);
            assert(-0x800000000 <= coeff * (q as int) <= 0x800000000) by (nonlinear_arith)
                requires
                    -2 <= coeff <= 2,
                    0 <= q < 0x400000000,
            ;
        }
        let k: i64 = coeff * (q as i64);
        fmt_eighths(k, coeff < 0)
    }
}

pub open spec fn has_emoji(c: ConfigView) -> bool {
    c.emoji.len() > 0
}

pub open spec fn has_title(c: ConfigView) -> bool {
    c.title.len() > 0
}

pub open spec fn has_body(c: ConfigView) -> bool {
    c.body.len() > 0
}

/// How many of the three elements are visible.
pub open spec fn visible_count(c: ConfigView) -> int {
    (if has_emoji(c) {
        1int
    } else {
        0int
    }) + (if has_title(c) {
        1int
    } else {
        0int
    }) + (if has_body(c) {
        1int
    } else {
        0int
    })
}

/// The weights, in quarters: the emoji weighs its size, the title the
/// font size, and the body three quarters of the font size.
pub open spec fn emoji_q(c: ConfigView) -> int {
    4 * (c.emoji_size as int)
}

pub open spec fn title_q(c: ConfigView) -> int {
    4 * (c.font_size as int)
}

pub open spec fn body_q(c: ConfigView) -> int {
    3 * (c.font_size as int)
}

pub open spec fn emoji_y_text(c: ConfigView) -> Seq<char> {
    offset_text(visible_count(c), 0, emoji_q(c))
}

pub open spec fn title_y_text(c: ConfigView) -> Seq<char> {
    offset_text(
        visible_count(c),
        if has_emoji(c) {
            1int
        } else {
            0int
        },
        title_q(c),
    )
}

pub open spec fn body_y_text(c: ConfigView) -> Seq<char> {
    offset_text(visible_count(c), visible_count(c) - 1, body_q(c))
}

/// The body text's font size: four fifths of the title's.
pub open spec fn body_font(fs: nat) -> nat {
    (fs * 4) / 5
}

/// The emoji text element; empty when no emoji is set. The glyph goes
/// in unescaped: it comes from the fixed table or stands for itself.
pub open spec fn emoji_element(c: ConfigView) -> Seq<char> {
    if !has_emoji(c) {
        Seq::empty()
    } else {
        "<text x=\"0\" y=\""@ + emoji_y_text(c)
            + "\" text-anchor=\"middle\" dominant-baseline=\"middle\" font-size=\""@ + dec_nat(
            c.emoji_size,
        ) + "\" font-family=\"Arial, sans-serif\">"@ + c.emoji + "</text>"@
    }
}

/// The title text element; empty when no title is set. The text is
/// escaped.
pub open spec fn title_element(c: ConfigView) -> Seq<char> {
    if !has_title(c) {
        Seq::empty()
    } else {
        "<text x=\"0\" y=\""@ + title_y_text(c)
            + "\" text-anchor=\"middle\" dominant-baseline=\"middle\" font-size=\""@ + dec_nat(
            c.font_size,
        ) + "\" font-family=\"Arial, sans-serif\" font-weight=\"bold\" fill=\"white\">"@ + escaped(
            c.title,
        ) + "</text>"@
    }
}

/// The body text element; empty when no body is set. The text is
/// escaped.
pub open spec fn body_element(c: ConfigView) -> Seq<char> {
    if !has_body(c) {
        Seq::empty()
    } else {
        "<text x=\"0\" y=\""@ + body_y_text(c)
            + "\" text-anchor=\"middle\" dominant-baseline=\"middle\" font-size=\""@ + dec_nat(
            body_font(c.font_size),
        ) + "\" font-family=\"Arial, sans-serif\" fill=\"rgba(255,255,255,0.8)\">"@ + escaped(
            c.body,
        ) + "</text>"@
    }
}

/// The gradient definition, when the background is a gradient.
pub open spec fn gradient_def(c: ConfigView) -> Seq<char> {
    match c.background {
        BackgroundView::Gradient(a, b) => {
            "<linearGradient id=\"bg\" x1=\"0%\" y1=\"0%\" x2=\"100%\" y2=\"100%\">\n            <stop offset=\"0%\" style=\"stop-color:"@
                + a + ";stop-opacity:1\" />\n            <stop offset=\"100%\" style=\"stop-color:"@
                + b + ";stop-opacity:1\" />\n          </linearGradient>"@
        },
        BackgroundView::Solid(_) => Seq::empty(),
    }
}

/// What the background rect is filled with: the gradient reference, or
/// the flat color itself.
pub open spec fn fill_value(c: ConfigView) -> Seq<char> {
    match c.background {
        BackgroundView::Gradient(_, _) => "url(#bg)"@,
        BackgroundView::Solid(col) => col,
    }
}

/// The complete SVG document for a configuration: the fixed template
/// with the canvas size, background, and up to three centered text
/// elements at their computed offsets.
pub open spec fn svg_of(c: ConfigView) -> Seq<char> {
    "<svg width=\""@ + dec_nat(c.width) + "\" height=\""@ + dec_nat(c.height)
        + "\" xmlns=\"http://www.w3.org/2000/svg\">\n    <defs>\n      "@ + gradient_def(c)
        + "\n    </defs>\n    <rect width=\""@ + dec_nat(c.width) + "\" height=\""@ + dec_nat(
        c.height,
    ) + "\" fill=\""@ + fill_value(c) + "\" />\n    <g transform=\"translate("@ + dec_nat(
        c.width / 2,
    ) + ", "@ + dec_nat(c.height / 2) + ")\">\n      "@ + emoji_element(c) + "\n      "@
        + title_element(c) + "\n      "@ + body_element(c) + "\n    </g>\n  </svg>"@
}

/// Renders the SVG document for a configuration. A pure function: the
/// same configuration always yields the same text.
pub fn generate_svg(config: &ThumbnailConfig) -> (r: String)
    ensures
        r@ == svg_of(config@),
{
    let has_e = !config.emoji.as_str().is_empty();
    let has_t = !config.title.as_str().is_empty();
    let has_b = !config.body.as_str().is_empty();
    let n: usize = (if has_e {
        1usize
    } else {
        0usize
    }) + (if has_t {
        1usize
    } else {
        0usize
    }) + (if has_b {
        1usize
    } else {
        0usize
    });
    proof {
        assert(n as int == visible_count(config@));
    }

    let emoji_el: String = if has_e {
        let y = fmt_offset(n, 0, 4 * (config.emoji_size as u64));
        let size_text = fmt_u64(config.emoji_size as u64);
        let mut e = String::from_str("<text x=\"0\" y=\"");
        e.append(y.as_str());
        e.append("\" text-anchor=\"middle\" dominant-baseline=\"middle\" font-size=\"");
        e.append(size_text.as_str());
        e.append("\" font-family=\"Arial, sans-serif\">");
        e.append(config.emoji.as_str());
        e.append("</text>");
        e
    } else {
        String::new()
    };
    proof {
        assert(emoji_el@ == emoji_element(config@));
    }

    let title_el: String = if has_t {
        let pos: usize = if has_e {
            1
        } else {
            0
        };
        let y = fmt_offset(n, pos, 4 * (config.font_size as u64));
        let size_text = fmt_u64(config.font_size as u64);
        let escaped_title = html_escape(config.title.as_str());
        let mut e = String::from_str("<text x=\"0\" y=\"");
        e.append(y.as_str());
        e.append("\" text-anchor=\"middle\" dominant-baseline=\"middle\" font-size=\"");
        e.append(size_text.as_str());
        e.append("\" font-family=\"Arial, sans-serif\" font-weight=\"bold\" fill=\"white\">");
        e.append(escaped_title.as_str());
        e.append("</text>");
        e
    } else {
        String::new()
    };
    proof {
        assert(title_el@ == title_element(config@));
    }

    let body_el: String = if has_b {
        let y = fmt_offset(n, n - 1, 3 * (config.font_size as u64));
        let size_text = fmt_u64((config.font_size as u64) * 4 / 5);
        let escaped_body = html_escape(config.body.as_str());
        let mut e = String::from_str("<text x=\"0\" y=\"");
        e.append(y.as_str());
        e.append("\" text-anchor=\"middle\" dominant-baseline=\"middle\" font-size=\"");
        e.append(size_text.as_str());
        e.append("\" font-family=\"Arial, sans-serif\" fill=\"rgba(255,255,255,0.8)\">");
        e.append(escaped_body.as_str());
        e.append("</text>");
        e
    } else {
        String::new()
    };
    proof {
        assert(body_el@ == body_element(config@));
    }

    let grad_and_fill: (String, String) = match &config.background_color {
        BackgroundColor::Gradient(a, b) => {
            let mut g = String::from_str(
                "<linearGradient id=\"bg\" x1=\"0%\" y1=\"0%\" x2=\"100%\" y2=\"100%\">\n            <stop offset=\"0%\" style=\"stop-color:",
            );
            g.append(a.as_str());
            g.append(
                ";stop-opacity:1\" />\n            <stop offset=\"100%\" style=\"stop-color:",
            );
            g.append(b.as_str());
            g.append(";stop-opacity:1\" />\n          </linearGradient>");
            (g, String::from_str("url(#bg)"))
        },
        BackgroundColor::Solid(col) => (String::new(), col.clone()),
    };
    let (grad_def, fill) = grad_and_fill;
    proof {
        assert(grad_def@ == gradient_def(config@));
        assert(fill@ == fill_value(config@));
    }

    let width_text = fmt_u64(config.width as u64);
    let height_text = fmt_u64(config.height as u64);
    let half_width_text = fmt_u64((config.width / 2) as u64);
    let half_height_text = fmt_u64((config.height / 2) as u64);

    let mut r = String::from_str("<svg width=\"");
    r.append(width_text.as_str());
    r.append("\" height=\"");
    r.append(height_text.as_str());
    r.append("\" xmlns=\"http://www.w3.org/2000/svg\">\n    <defs>\n      ");
    r.append(grad_def.as_str());
    r.append("\n    </defs>\n    <rect width=\"");
    r.append(width_text.as_str());
    r.append("\" height=\"");
    r.append(height_text.as_str());
    r.append("\" fill=\"");
    r.append(fill.as_str());
    r.append("\" />\n    <g transform=\"translate(");
    r.append(half_width_text.as_str());
    r.append(", ");
    r.append(half_height_text.as_str());
    r.append(")\">\n      ");
    r.append(emoji_el.as_str());
    r.append("\n      ");
    r.append(title_el.as_str());
    r.append("\n      ");
    r.append(body_el.as_str());
    r.append("\n    </g>\n  </svg>");
    proof {
        assert(r@ == svg_of(config@));
    }
    r
}

} // verus!
