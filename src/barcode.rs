//! Preparing barcode contents: EAN-13 check digits and Code 128 text.
use vstd::prelude::*;
use crate::text::{all_digits, ascii_digit, control_char, is_control, push_char};

verus! {

/// Why a string is not an EAN-13 code.
#[derive(Clone, Copy, Debug, PartialEq, Eq, Structural)]
pub enum Ean13Error {
    /// A character is not an ASCII digit.
    NonDigit,
    /// The code has neither 12 nor 13 digits.
    BadLength,
    /// The thirteenth digit does not match the first twelve.
    CheckDigit { expected: u32, got: u32 },
}

/// The value of the ASCII digit `c`.
pub open spec fn digit_of(c: char) -> int {
    c as u32 - 48
}

/// The EAN weighted sum of `s`: digits at even positions (counting from 0)
/// weigh 1, the others 3.
pub open spec fn weighted_sum(s: Seq<char>) -> int
    decreases s.len(),
{
    if s.len() == 0 {
        0
    } else {
        weighted_sum(s.drop_last()) + (if (s.len() - 1) % 2 == 0 {
            1int
        } else {
            3int
        }) * digit_of(s.last())
    }
}

/// The check digit of the first twelve digits of `s`.
pub open spec fn check_digit(s: Seq<char>) -> int {
    (10 - weighted_sum(s.subrange(0, 12)) % 10) % 10
}

/// The ASCII digit for `d`.
pub open spec fn digit_char(d: int) -> char {
    (d + 48) as char
}

/// The complete EAN-13 code for `s`: twelve digits get their check digit
/// appended; thirteen digits must carry the right one.
pub open spec fn ean13_of(s: Seq<char>) -> Result<Seq<char>, Ean13Error> {
    if !all_digits(s) {
        Err(Ean13Error::NonDigit)
    } else if s.len() == 12 {
        Ok(s.push(digit_char(check_digit(s))))
    } else if s.len() == 13 {
        if digit_of(s[12]) == check_digit(s) {
            Ok(s)
        } else {
            Err(
                Ean13Error::CheckDigit {
                    expected: check_digit(s) as u32,
                    got: digit_of(s[12]) as u32,
                },
            )
        }
    } else {
        Err(Ean13Error::BadLength)
    }
}

/// The check digit of the first twelve characters of `s`, all digits.
fn compute_check_digit(s: &str) -> (r: u32)
    requires
        s@.len() >= 12,
        all_digits(s@),
    ensures
        r == check_digit(s@),
{
    let mut sum: u32 = 0;
    let mut i: usize = 0;
    while i < 12
        invariant
            s@.len() >= 12,
            all_digits(s@),
            i <= 12,
            sum == weighted_sum(s@.subrange(0, i as int)),
            sum <= 27 * i,
        decreases 12 - i,
    {
        let c = s.get_char(i);
        assert(ascii_digit(s@[i as int]));
        let d = (c as u32) - 48;
        assert(s@.subrange(0, i + 1).drop_last() =~= s@.subrange(0, i as int));
        if i % 2 == 0 {
            sum = sum + d;
        } else {
            sum = sum + 3 * d;
        }
        i = i + 1;
    }
    (10 - sum % 10) % 10
}

/// The complete EAN-13 code for `input`: twelve digits get their check digit
/// appended; thirteen digits are returned as they are when their check digit
/// is right.
pub fn normalize_ean13(input: &str) -> (r: Result<String, Ean13Error>)
    ensures
        match r {
            Ok(code) => ean13_of(input@) == Ok::<Seq<char>, Ean13Error>(code@),
            Err(e) => ean13_of(input@) == Err::<Seq<char>, Ean13Error>(e),
        },
{
    let n = input.unicode_len();
    let mut i: usize = 0;
    while i < n
        invariant
            n == input@.len(),
            i <= n,
            forall|k: int| 0 <= k < i ==> ascii_digit(#[trigger] input@[k]),
        decreases n - i,
    {
        let c = input.get_char(i);
        if !((c as u32) >= 48 && (c as u32) <= 57) {
            return Err(Ean13Error::NonDigit);
        }
        i = i + 1;
    }
    if n == 12 {
        let check = compute_check_digit(input);
        let mut code = String::from_str(input);
        let ch = ((check + 48) as u8) as char;
        push_char(&mut code, ch);
        Ok(code)
    } else if n == 13 {
        let check = compute_check_digit(input);
        let given = (input.get_char(12) as u32) - 48;
        if check != given {
            return Err(Ean13Error::CheckDigit { expected: check, got: given });
        }
        Ok(String::from_str(input))
    } else {
        Err(Ean13Error::BadLength)
    }
}

/// Whether `c` is kept by Code 128 cleaning.
pub open spec fn kept_for_code128(c: char) -> bool {
    !control_char(c)
}

/// A kept character as Code 128 carries it: ASCII as is, anything else as `?`.
pub open spec fn code128_char(c: char) -> char {
    if (c as u32) < 128 {
        c
    } else {
        '?'
    }
}

/// `s` with control characters dropped and non-ASCII characters replaced
/// by `?`.
pub open spec fn code128_clean(s: Seq<char>) -> Seq<char> {
    s.filter(|c: char| kept_for_code128(c)).map_values(|c: char| code128_char(c))
}

/// The Code 128 start character that selects code set B.
pub open spec fn code_set_b_start() -> char {
    '\u{0181}'
}

/// `input` with control characters dropped and non-ASCII characters
/// replaced by `?`.
pub fn clean_for_code128(input: &str) -> (r: String)
    ensures
        r@ == code128_clean(input@),
{
    let ghost keep = |c: char| kept_for_code128(c);
    let ghost conv = |c: char| code128_char(c);
    let n = input.unicode_len();
    let mut out = String::new();
    let mut i: usize = 0;
    while i < n
        invariant
            n == input@.len(),
            i <= n,
            keep == (|c: char| kept_for_code128(c)),
            conv == (|c: char| code128_char(c)),
            out@ == input@.subrange(0, i as int).filter(keep).map_values(conv),
        decreases n - i,
    {
        let c = input.get_char(i);
        proof {
            assert(input@.subrange(0, i + 1) =~= input@.subrange(0, i as int).push(c));
            input@.subrange(0, i as int).lemma_filter_push(c, keep);
        }
        let ghost before = input@.subrange(0, i as int).filter(keep);
        if !is_control(c) {
            let shown = if (c as u32) < 128 {
                c
            } else {
                '?'
            };
            push_char(&mut out, shown);
            assert(before.push(c).map_values(conv) =~= before.map_values(conv).push(shown));
        }
        i = i + 1;
    }
    assert(input@.subrange(0, n as int) =~= input@);
    out
}

/// The data a Code 128 symbol encodes for `raw`: the code set B start
/// character followed by the cleaned text.
pub fn to_code128_data(raw: &str) -> (r: String)
    ensures
        r@ == seq![code_set_b_start()] + code128_clean(raw@),
{
    let cleaned = clean_for_code128(raw);
    let mut data = String::new();
    push_char(&mut data, '\u{0181}');
    data.append(cleaned.as_str());
    assert(data@ =~= seq![code_set_b_start()] + code128_clean(raw@));
    data
}

/// The decimal digits of `n`, most significant first.
pub open spec fn decimal_text(n: nat) -> Seq<char>
    decreases n,
{
    if n < 10 {
        seq![digit_char(n as int)]
    } else {
        decimal_text(n / 10).push(digit_char((n % 10) as int))
    }
}

/// Appends the decimal digits of `n` to `s`.
pub fn push_decimal(s: &mut String, n: usize)
    ensures
        final(s)@ == old(s)@ + decimal_text(n as nat),
    decreases n,
{
    if n >= 10 {
        push_decimal(s, n / 10);
    }
    let d = (n % 10) as u8;
    push_char(s, (d + 48) as char);
    assert(final(s)@ =~= old(s)@ + decimal_text(n as nat)) by {
        if n >= 10 {
            assert(decimal_text(n as nat) == decimal_text((n / 10) as nat).push(
                digit_char((n % 10) as int),
            ));
        }
    }
}

/// The largest module count or position that a DataMatrix drawing accepts.
pub const MAX_MODULES: usize = 100000000;

/// Pixels per module in a DataMatrix drawing.
pub open spec fn module_pixels() -> nat {
    10
}

/// The opening of a DataMatrix drawing of `w` by `h` pixels, white.
pub open spec fn svg_head(w: nat, h: nat) -> Seq<char> {
    "<svg xmlns=\"http://www.w3.org/2000/svg\" width=\""@ + decimal_text(w) + "\" height=\""@
        + decimal_text(h) + "\" viewBox=\"0 0 "@ + decimal_text(w) + " "@ + decimal_text(h)
        + "\" shape-rendering=\"crispEdges\">"@
        + "<rect width=\"100%\" height=\"100%\" fill=\"white\"/>"@
}

/// One dark module at column `x`, row `y`, after a one-module quiet zone.
pub open spec fn svg_module(x: nat, y: nat) -> Seq<char> {
    "<rect x=\""@ + decimal_text((x + 1) * module_pixels()) + "\" y=\""@ + decimal_text(
        (y + 1) * module_pixels(),
    ) + "\" width=\"10\" height=\"10\" fill=\"black\"/>\n"@
}

/// The dark modules, in order.
pub open spec fn svg_modules(dark: Seq<(usize, usize)>) -> Seq<char>
    decreases dark.len(),
{
    if dark.len() == 0 {
        Seq::empty()
    } else {
        svg_modules(dark.drop_last()) + svg_module(dark.last().0 as nat, dark.last().1 as nat)
    }
}

/// The SVG drawing of a DataMatrix symbol of `width` by `height` modules
/// whose dark modules are `dark`.
pub open spec fn datamatrix_svg_text(width: nat, height: nat, dark: Seq<(usize, usize)>) -> Seq<
    char,
> {
    svg_head((width + 2) * module_pixels(), (height + 2) * module_pixels()) + svg_modules(dark)
        + "</svg>"@
}

/// Draws a DataMatrix symbol of `width` by `height` modules as SVG: 10-pixel
/// modules, a one-module white quiet zone, one black square per dark module.
pub fn datamatrix_svg(width: usize, height: usize, dark: &Vec<(usize, usize)>) -> (r: String)
    requires
        width <= MAX_MODULES,
        height <= MAX_MODULES,
        forall|i: int| 0 <= i < dark@.len() ==> #[trigger] dark@[i].0 <= MAX_MODULES && dark@[i].1 <= MAX_MODULES,
    ensures
        r@ == datamatrix_svg_text(width as nat, height as nat, dark@),
{
    let w = (width + 2) * 10;
    let h = (height + 2) * 10;
    let mut svg = String::from_str("<svg xmlns=\"http://www.w3.org/2000/svg\" width=\"");
    push_decimal(&mut svg, w);
    svg.append("\" height=\"");
    push_decimal(&mut svg, h);
    svg.append("\" viewBox=\"0 0 ");
    push_decimal(&mut svg, w);
    svg.append(" ");
    push_decimal(&mut svg, h);
    svg.append("\" shape-rendering=\"crispEdges\">");
    svg.append("<rect width=\"100%\" height=\"100%\" fill=\"white\"/>");
    let ghost head = svg@;
    assert(head =~= svg_head(w as nat, h as nat));
    let mut i: usize = 0;
    while i < dark.len()
        invariant
            i <= dark@.len(),
            forall|k: int| 0 <= k < dark@.len() ==> #[trigger] dark@[k].0 <= MAX_MODULES && dark@[k].1 <= MAX_MODULES,
            head == svg_head(w as nat, h as nat),
            svg@ == head + svg_modules(dark@.subrange(0, i as int)),
        decreases dark.len() - i,
    {
        let (x, y) = dark[i];
        assert(dark@[i as int].0 <= MAX_MODULES);
        let ghost before = svg@;
        svg.append("<rect x=\"");
        push_decimal(&mut svg, (x + 1) * 10);
        svg.append("\" y=\"");
        push_decimal(&mut svg, (y + 1) * 10);
        svg.append("\" width=\"10\" height=\"10\" fill=\"black\"/>\n");
        proof {
            assert(dark@.subrange(0, i + 1).drop_last() =~= dark@.subrange(0, i as int));
            assert(svg@ =~= before + svg_module(x as nat, y as nat));
        }
        i = i + 1;
    }
    svg.append("</svg>");
    assert(dark@.subrange(0, dark@.len() as int) =~= dark@);
    assert(svg@ =~= datamatrix_svg_text(width as nat, height as nat, dark@));
    svg
}

/// The data URL that carries SVG text already percent-encoded.
pub fn svg_data_url(encoded_svg: &str) -> (r: String)
    ensures
        r@ == "data:image/svg+xml;utf8,"@ + encoded_svg@,
{
    let mut url = String::from_str("data:image/svg+xml;utf8,");
    url.append(encoded_svg);
    url
}

/// The data URL that carries a PNG image already base64-encoded.
pub fn png_data_url(base64_png: &str) -> (r: String)
    ensures
        r@ == "data:image/png;base64,"@ + base64_png@,
{
    let mut url = String::from_str("data:image/png;base64,");
    url.append(base64_png);
    url
}

} // verus!
