//! The HTML rules for parsing a legacy font size and a legacy color value.
use vstd::prelude::*;
use vstd::slice::slice_subrange;
use vstd::slice::slice_to_vec;
use crate::text::{chars_of, push_all, string_of, trim, trim_end_index, trim_start, trim_start_index};

verus! {

pub open spec fn is_digit(c: char) -> bool {
    '0' <= c && c <= '9'
}

/// The run of ASCII digits at the start of `s`.
pub open spec fn leading_digits(s: Seq<char>) -> Seq<char>
    decreases s.len(),
{
    if s.len() > 0 && is_digit(s[0]) {
        seq![s[0]] + leading_digits(s.drop_first())
    } else {
        Seq::empty()
    }
}

/// The number that a run of ASCII digits spells in base ten.
pub open spec fn number_of(s: Seq<char>) -> int
    decreases s.len(),
{
    if s.len() == 0 {
        0
    } else {
        number_of(s.drop_last()) * 10 + (s.last() as int - '0' as int)
    }
}

pub open spec fn font_size_keyword(v: int) -> Seq<char> {
    if v <= 1 {
        "x-small"@
    } else if v == 2 {
        "small"@
    } else if v == 3 {
        "medium"@
    } else if v == 4 {
        "large"@
    } else if v == 5 {
        "x-large"@
    } else if v == 6 {
        "xx-large"@
    } else {
        "xxx-large"@
    }
}

/// The font size keyword that a legacy `size` attribute asks for, if any.
pub open spec fn legacy_font_size(input: Seq<char>) -> Option<Seq<char>> {
    font_size_of(trim_start(input))
}

/// The font size keyword that a `size` value without leading white space
/// asks for, if any: an optional `+` or `-` and a run of digits that fits an
/// `isize`. `+n` is `3 + n`, `-n` is `3 - n`, and the value is held to the
/// range one to seven.
pub open spec fn font_size_of(s: Seq<char>) -> Option<Seq<char>> {
    if s.len() == 0 {
        None
    } else {
        let signed = s[0] == '+' || s[0] == '-';
        let digits = leading_digits(if signed { s.drop_first() } else { s });
        if digits.len() == 0 || number_of(digits) > isize::MAX {
            None
        } else {
            let n = number_of(digits);
            let v = if s[0] == '+' {
                n + 3
            } else if s[0] == '-' {
                3 - n
            } else {
                n
            };
            Some(font_size_keyword(v))
        }
    }
}

proof fn lemma_number_grows(s: Seq<char>, k: int)
    requires
        0 <= k <= s.len(),
        forall|j: int| 0 <= j < s.len() ==> is_digit(#[trigger] s[j]),
    ensures
        0 <= number_of(s.subrange(0, k)) <= number_of(s),
    decreases s.len() - k,
{
    if k < s.len() {
        lemma_number_grows(s, k + 1);
        assert(s.subrange(0, k + 1).drop_last() =~= s.subrange(0, k));
        lemma_number_nonneg(s.subrange(0, k));
    } else {
        assert(s.subrange(0, k) =~= s);
        lemma_number_nonneg(s);
    }
}

proof fn lemma_number_nonneg(s: Seq<char>)
    requires
        forall|j: int| 0 <= j < s.len() ==> is_digit(#[trigger] s[j]),
    ensures
        number_of(s) >= 0,
    decreases s.len(),
{
    if s.len() > 0 {
        lemma_number_nonneg(s.drop_last());
    }
}

proof fn lemma_leading_digits_are_digits(s: Seq<char>)
    ensures
        forall|j: int| 0 <= j < leading_digits(s).len() ==> is_digit(#[trigger] leading_digits(s)[j]),
    decreases s.len(),
{
    if s.len() > 0 && is_digit(s[0]) {
        lemma_leading_digits_are_digits(s.drop_first());
        let r = leading_digits(s);
        let t = leading_digits(s.drop_first());
        assert forall|j: int| 0 <= j < r.len() implies is_digit(#[trigger] r[j]) by {
            if j > 0 {
                assert(r[j] == t[j - 1]);
            }
        }
    }
}

/// The run of digits in `s` from `from`, as a vector.
fn digits_from(s: &[char], from: usize) -> (r: Vec<char>)
    requires
        from <= s@.len(),
    ensures
        r@ == leading_digits(s@.subrange(from as int, s@.len() as int)),
{
    let mut out: Vec<char> = Vec::new();
    let mut i: usize = from;
    while i < s.len() && '0' <= s[i] && s[i] <= '9'
        invariant
            from <= i <= s@.len(),
            leading_digits(s@.subrange(from as int, s@.len() as int)) == out@ + leading_digits(
                s@.subrange(i as int, s@.len() as int),
            ),
        decreases s.len() - i,
    {
        let ghost rest = s@.subrange(i as int, s@.len() as int);
        assert(rest.drop_first() =~= s@.subrange(i + 1, s@.len() as int));
        assert(out@ + leading_digits(rest) =~= out@.push(s[i as int]) + leading_digits(rest.drop_first()));
        out.push(s[i]);
        i = i + 1;
    }
    assert(out@ + leading_digits(s@.subrange(i as int, s@.len() as int)) =~= out@);
    out
}

/// The value of a run of digits, or `None` where it exceeds `isize::MAX`.
fn digits_value(d: &Vec<char>) -> (r: Option<isize>)
    requires
        forall|j: int| 0 <= j < d@.len() ==> is_digit(#[trigger] d@[j]),
    ensures
        match r {
            Some(v) => v == number_of(d@) && v >= 0,
            None => number_of(d@) > isize::MAX,
        },
{
    let mut value: isize = 0;
    let mut i: usize = 0;
    while i < d.len()
        invariant
            i <= d@.len(),
            forall|j: int| 0 <= j < d@.len() ==> is_digit(#[trigger] d@[j]),
            value == number_of(d@.subrange(0, i as int)),
            0 <= value,
        decreases d.len() - i,
    {
        assert(d@.subrange(0, i + 1).drop_last() =~= d@.subrange(0, i as int));
        let digit = (d[i] as u32 - '0' as u32) as isize;
        if value > (isize::MAX - digit) / 10 {
            proof {
                assert(value * 10 + digit > isize::MAX) by (nonlinear_arith)
                    requires
                        value > (isize::MAX - digit) / 10,
                        0 <= digit <= 9,
                ;
                lemma_number_grows(d@, i + 1);
            }
            return None;
        }
        proof {
            assert(value * 10 + digit <= isize::MAX) by (nonlinear_arith)
                requires
                    value <= (isize::MAX - digit) / 10,
                    0 <= digit <= 9,
                    0 <= value,
            ;
        }
        value = value * 10 + digit;
        i = i + 1;
    }
    assert(d@.subrange(0, d@.len() as int) =~= d@);
    Some(value)
}

/// The rules for parsing a legacy font size.
pub fn parse_legacy_font_size(input: &str) -> (r: Option<&'static str>)
    ensures
        r is None <==> legacy_font_size(input@) is None,
        r matches Some(k) ==> legacy_font_size(input@) == Some(k@),
{
    let chars = chars_of(input);
    let start = trim_start_index(chars.as_slice());
    font_size_from(chars.as_slice(), start)
}

fn font_size_from(chars: &[char], start: usize) -> (r: Option<&'static str>)
    requires
        start <= chars@.len(),
    ensures
        r is None <==> font_size_of(chars@.subrange(start as int, chars@.len() as int)) is None,
        r matches Some(k) ==> font_size_of(chars@.subrange(start as int, chars@.len() as int)) == Some(k@),
{
    let ghost s = chars@.subrange(start as int, chars@.len() as int);
    if start == chars.len() {
        return None;
    }
    let first = chars[start];
    let pos = if first == '+' || first == '-' {
        start + 1
    } else {
        start
    };
    proof {
        if first == '+' || first == '-' {
            assert(s.drop_first() =~= chars@.subrange(pos as int, chars@.len() as int));
        }
    }
    let digits = digits_from(chars, pos);
    if digits.len() == 0 {
        return None;
    }
    proof {
        lemma_leading_digits_are_digits(chars@.subrange(pos as int, chars@.len() as int));
    }
    let n = match digits_value(&digits) {
        Some(n) => n,
        None => {
            return None;
        },
    };
    let value: isize = if first == '+' {
        if n > 4 {
            7
        } else {
            n + 3
        }
    } else if first == '-' {
        3 - n
    } else {
        n
    };
    proof {
        reveal_strlit("x-small");
        reveal_strlit("small");
        reveal_strlit("medium");
        reveal_strlit("large");
        reveal_strlit("x-large");
        reveal_strlit("xx-large");
        reveal_strlit("xxx-large");
    }
    let keyword = if value <= 1 {
        "x-small"
    } else if value == 2 {
        "small"
    } else if value == 3 {
        "medium"
    } else if value == 4 {
        "large"
    } else if value == 5 {
        "x-large"
    } else if value == 6 {
        "xx-large"
    } else {
        "xxx-large"
    };
    Some(keyword)
}

pub open spec fn is_hex(c: char) -> bool {
    is_digit(c) || ('a' <= c && c <= 'f') || ('A' <= c && c <= 'F')
}

/// The code of `c` once ASCII upper case is made lower case.
pub open spec fn ascii_lower(c: char) -> int {
    if 'A' <= c && c <= 'Z' {
        c as int + 32
    } else {
        c as int
    }
}

/// `s` in ASCII lower case spells `name`.
pub open spec fn lower_matches(s: Seq<char>, name: Seq<char>) -> bool {
    s.len() == name.len() && forall|i: int| 0 <= i < s.len() ==> ascii_lower(#[trigger] s[i]) == name[i] as int
}

/// The named colors of HTML.
pub open spec fn named_colors() -> Seq<&'static str> {
    seq![
        "aliceblue", "antiquewhite", "aqua", "aquamarine", "azure", "beige", "bisque", "black",
        "blanchedalmond", "blue", "blueviolet", "brown", "burlywood", "cadetblue",
        "chartreuse", "chocolate", "coral", "cornflowerblue", "cornsilk", "crimson", "cyan",
        "darkblue", "darkcyan", "darkgoldenrod", "darkgray", "darkgreen", "darkgrey",
        "darkkhaki", "darkmagenta", "darkolivegreen", "darkorange", "darkorchid", "darkred",
        "darksalmon", "darkseagreen", "darkslateblue", "darkslategray", "darkslategrey",
        "darkturquoise", "darkviolet", "deeppink", "deepskyblue", "dimgray", "dimgrey",
        "dodgerblue", "firebrick", "floralwhite", "forestgreen", "fuchsia", "gainsboro",
        "ghostwhite", "gold", "goldenrod", "gray", "green", "greenyellow", "grey", "honeydew",
        "hotpink", "indianred", "indigo", "ivory", "khaki", "lavender", "lavenderblush",
        "lawngreen", "lemonchiffon", "lightblue", "lightcoral", "lightcyan",
        "lightgoldenrodyellow", "lightgray", "lightgreen", "lightgrey", "lightpink",
        "lightsalmon", "lightseagreen", "lightskyblue", "lightslategray", "lightslategrey",
        "lightsteelblue", "lightyellow", "lime", "limegreen", "linen", "magenta", "maroon",
        "mediumaquamarine", "mediumblue", "mediumorchid", "mediumpurple", "mediumseagreen",
        "mediumslateblue", "mediumspringgreen", "mediumturquoise", "mediumvioletred",
        "midnightblue", "mintcream", "mistyrose", "moccasin", "navajowhite", "navy", "oldlace",
        "olive", "olivedrab", "orange", "orangered", "orchid", "palegoldenrod", "palegreen",
        "paleturquoise", "palevioletred", "papayawhip", "peachpuff", "peru", "pink", "plum",
        "powderblue", "purple", "rebeccapurple", "red", "rosybrown", "royalblue",
        "saddlebrown", "salmon", "sandybrown", "seagreen", "seashell", "sienna", "silver",
        "skyblue", "slateblue", "slategray", "slategrey", "snow", "springgreen", "steelblue",
        "tan", "teal", "thistle", "tomato", "turquoise", "violet", "wheat", "white",
        "whitesmoke", "yellow", "yellowgreen",
    ]
}

pub open spec fn is_named_color(s: Seq<char>) -> bool {
    exists|i: int| 0 <= i < named_colors().len() && lower_matches(s, (#[trigger] named_colors()[i])@)
}

pub open spec fn truncated(t: Seq<char>) -> Seq<char> {
    if t.len() > 128 {
        t.subrange(0, 128)
    } else {
        t
    }
}

pub open spec fn without_hash(t: Seq<char>) -> Seq<char> {
    if t.len() > 0 && t[0] == '#' {
        t.drop_first()
    } else {
        t
    }
}

pub open spec fn hex_or_zero(c: char) -> char {
    if is_hex(c) {
        c
    } else {
        '0'
    }
}

/// `t` with zeros appended up to a multiple of three.
pub open spec fn padded(t: Seq<char>) -> Seq<char> {
    t + Seq::new(((3 - t.len() % 3) % 3) as nat, |i: int| '0')
}

/// Drops a leading zero from all three components while they are longer
/// than two and all start with one.
pub open spec fn strip_zeros(a: Seq<char>, b: Seq<char>, c: Seq<char>) -> (Seq<char>, Seq<char>, Seq<char>)
    decreases a.len(),
{
    if a.len() > 2 && a[0] == '0' && b[0] == '0' && c[0] == '0' {
        strip_zeros(a.drop_first(), b.drop_first(), c.drop_first())
    } else {
        (a, b, c)
    }
}

/// The red, green and blue parts of a padded hex text.
pub open spec fn color_components(t: Seq<char>) -> (Seq<char>, Seq<char>, Seq<char>) {
    let l: int = (t.len() / 3) as int;
    let off: int = if l > 8 {
        l - 8
    } else {
        0
    };
    let parts = strip_zeros(t.subrange(off, l), t.subrange(l + off, 2 * l), t.subrange(2 * l + off, 3 * l));
    if parts.0.len() > 2 {
        (parts.0.subrange(0, 2), parts.1.subrange(0, 2), parts.2.subrange(0, 2))
    } else {
        parts
    }
}

/// The color that a legacy color attribute asks for, if any: `None` for an
/// empty text or "transparent"; a named color or a three-digit `#rgb` as
/// written (trimmed); otherwise at most 128 characters, without a leading
/// `#`, non-hex characters read as zero, split into three components that
/// are cut to at most two significant characters each.
pub open spec fn legacy_color(input: Seq<char>) -> Option<Seq<char>> {
    if input.len() == 0 {
        None
    } else {
        color_of(trim(input))
    }
}

/// The color that a color value without surrounding white space asks for:
/// see [`legacy_color`].
pub open spec fn color_of(s: Seq<char>) -> Option<Seq<char>> {
    if lower_matches(s, "transparent"@) {
        None
    } else if is_named_color(s) {
        Some(s)
    } else if s.len() == 4 && s[0] == '#' && is_hex(s[1]) && is_hex(s[2]) && is_hex(s[3]) {
        Some(s)
    } else {
        let t = padded(without_hash(truncated(s)).map_values(|c: char| hex_or_zero(c)));
        let parts = color_components(t);
        Some("#"@ + parts.0 + parts.1 + parts.2)
    }
}

fn is_hex_char(c: char) -> (r: bool)
    ensures
        r == is_hex(c),
{
    ('0' <= c && c <= '9') || ('a' <= c && c <= 'f') || ('A' <= c && c <= 'F')
}

fn lower_char(c: char) -> (r: char)
    ensures
        r as int == ascii_lower(c),
{
    match c {
        'A' => 'a',
        'B' => 'b',
        'C' => 'c',
        'D' => 'd',
        'E' => 'e',
        'F' => 'f',
        'G' => 'g',
        'H' => 'h',
        'I' => 'i',
        'J' => 'j',
        'K' => 'k',
        'L' => 'l',
        'M' => 'm',
        'N' => 'n',
        'O' => 'o',
        'P' => 'p',
        'Q' => 'q',
        'R' => 'r',
        'S' => 's',
        'T' => 't',
        'U' => 'u',
        'V' => 'v',
        'W' => 'w',
        'X' => 'x',
        'Y' => 'y',
        'Z' => 'z',
        _ => c,
    }
}

fn lower_is(s: &[char], name: &str) -> (r: bool)
    ensures
        r == lower_matches(s@, name@),
{
    let n = chars_of(name);
    if s.len() != n.len() {
        return false;
    }
    let mut i: usize = 0;
    while i < s.len()
        invariant
            n@ == name@,
            s@.len() == n@.len(),
            i <= s@.len(),
            forall|j: int| 0 <= j < i ==> ascii_lower(#[trigger] s@[j]) == n@[j] as int,
        decreases s.len() - i,
    {
        if lower_char(s[i]) != n[i] {
            return false;
        }
        i = i + 1;
    }
    true
}

fn color_names() -> (r: Vec<&'static str>)
    ensures
        r@ == named_colors(),
{
    let r = vec![
        "aliceblue", "antiquewhite", "aqua", "aquamarine", "azure", "beige", "bisque", "black",
        "blanchedalmond", "blue", "blueviolet", "brown", "burlywood", "cadetblue",
        "chartreuse", "chocolate", "coral", "cornflowerblue", "cornsilk", "crimson", "cyan",
        "darkblue", "darkcyan", "darkgoldenrod", "darkgray", "darkgreen", "darkgrey",
        "darkkhaki", "darkmagenta", "darkolivegreen", "darkorange", "darkorchid", "darkred",
        "darksalmon", "darkseagreen", "darkslateblue", "darkslategray", "darkslategrey",
        "darkturquoise", "darkviolet", "deeppink", "deepskyblue", "dimgray", "dimgrey",
        "dodgerblue", "firebrick", "floralwhite", "forestgreen", "fuchsia", "gainsboro",
        "ghostwhite", "gold", "goldenrod", "gray", "green", "greenyellow", "grey", "honeydew",
        "hotpink", "indianred", "indigo", "ivory", "khaki", "lavender", "lavenderblush",
        "lawngreen", "lemonchiffon", "lightblue", "lightcoral", "lightcyan",
        "lightgoldenrodyellow", "lightgray", "lightgreen", "lightgrey", "lightpink",
        "lightsalmon", "lightseagreen", "lightskyblue", "lightslategray", "lightslategrey",
        "lightsteelblue", "lightyellow", "lime", "limegreen", "linen", "magenta", "maroon",
        "mediumaquamarine", "mediumblue", "mediumorchid", "mediumpurple", "mediumseagreen",
        "mediumslateblue", "mediumspringgreen", "mediumturquoise", "mediumvioletred",
        "midnightblue", "mintcream", "mistyrose", "moccasin", "navajowhite", "navy", "oldlace",
        "olive", "olivedrab", "orange", "orangered", "orchid", "palegoldenrod", "palegreen",
        "paleturquoise", "palevioletred", "papayawhip", "peachpuff", "peru", "pink", "plum",
        "powderblue", "purple", "rebeccapurple", "red", "rosybrown", "royalblue",
        "saddlebrown", "salmon", "sandybrown", "seagreen", "seashell", "sienna", "silver",
        "skyblue", "slateblue", "slategray", "slategrey", "snow", "springgreen", "steelblue",
        "tan", "teal", "thistle", "tomato", "turquoise", "violet", "wheat", "white",
        "whitesmoke", "yellow", "yellowgreen",
    ];
    assert(r@ =~= named_colors());
    r
}

fn is_named(s: &[char]) -> (r: bool)
    ensures
        r == is_named_color(s@),
{
    let names = color_names();
    let mut i: usize = 0;
    while i < names.len()
        invariant
            names@ == named_colors(),
            i <= names@.len(),
            forall|j: int| 0 <= j < i ==> !lower_matches(s@, (#[trigger] named_colors()[j])@),
        decreases names.len() - i,
    {
        if lower_is(s, names[i]) {
            return true;
        }
        i = i + 1;
    }
    false
}

/// The hex text that a color value that is neither named nor `#rgb` is
/// read as.
fn sanitized(s: &Vec<char>) -> (t: Vec<char>)
    ensures
        t@ == padded(without_hash(truncated(s@)).map_values(|c: char| hex_or_zero(c))),
        t@.len() % 3 == 0,
{
    let n = if s.len() > 128 {
        128
    } else {
        s.len()
    };
    let from: usize = if n > 0 && s[0] == '#' {
        1
    } else {
        0
    };
    let ghost base = without_hash(truncated(s@));
    assert(base =~= s@.subrange(from as int, n as int));
    let mut t: Vec<char> = Vec::new();
    let mut i: usize = from;
    while i < n
        invariant
            from <= i <= n <= s@.len(),
            base == s@.subrange(from as int, n as int),
            t@ =~= base.subrange(0, i - from).map_values(|c: char| hex_or_zero(c)),
        decreases n - i,
    {
        let c = s[i];
        t.push(if is_hex_char(c) { c } else { '0' });
        i = i + 1;
    }
    assert(base.subrange(0, n - from) =~= base);
    let ghost mapped = t@;
    let pad = (3 - t.len() % 3) % 3;
    let mut k: usize = 0;
    while k < pad
        invariant
            k <= pad,
            pad == (3 - mapped.len() % 3) % 3,
            t@ =~= mapped + Seq::new(k as nat, |j: int| '0'),
        decreases pad - k,
    {
        t.push('0');
        k = k + 1;
    }
    assert(t@ == padded(base.map_values(|c: char| hex_or_zero(c))));
    t
}

/// `"#"` and the three components of a padded hex text.
fn assembled(t: &Vec<char>) -> (out: Vec<char>)
    requires
        t@.len() % 3 == 0,
    ensures
        out@ == "#"@ + color_components(t@).0 + color_components(t@).1 + color_components(t@).2,
{
    let l = t.len() / 3;
    assert(3 * l == t@.len()) by (nonlinear_arith)
        requires
            l == t@.len() / 3,
            t@.len() % 3 == 0,
    ;
    let off = if l > 8 {
        l - 8
    } else {
        0
    };
    let z = zeros_to_strip(t, l, off);
    let len = l - off - z;
    let keep = if len > 2 {
        2
    } else {
        len
    };
    let mut out: Vec<char> = Vec::new();
    out.push('#');
    push_all(&mut out, slice_subrange(t.as_slice(), off + z, off + z + keep));
    push_all(&mut out, slice_subrange(t.as_slice(), l + off + z, l + off + z + keep));
    push_all(&mut out, slice_subrange(t.as_slice(), 2 * l + off + z, 2 * l + off + z + keep));
    proof {
        reveal_strlit("#");
        let parts = color_components(t@);
        assert(parts.0 =~= t@.subrange(off + z, off + z + keep));
        assert(parts.1 =~= t@.subrange(l + off + z, l + off + z + keep));
        assert(parts.2 =~= t@.subrange(2 * l + off + z, 2 * l + off + z + keep));
        assert(out@ =~= "#"@ + parts.0 + parts.1 + parts.2);
    }
    out
}

/// How many leading zeros [`strip_zeros`] drops from the components that
/// start at `off`, `l + off` and `2 * l + off`.
fn zeros_to_strip(t: &Vec<char>, l: usize, off: usize) -> (z: usize)
    requires
        3 * l == t@.len(),
        off <= l,
    ensures
        z <= l - off,
        strip_zeros(t@.subrange(off as int, l as int), t@.subrange(l + off, 2 * l), t@.subrange(2 * l + off, 3 * l))
            == (t@.subrange(off + z, l as int), t@.subrange(l + off + z, 2 * l), t@.subrange(2 * l + off + z, 3 * l)),
{
    let ghost a0 = t@.subrange(off as int, l as int);
    let ghost b0 = t@.subrange(l + off, 2 * l);
    let ghost c0 = t@.subrange(2 * l + off, 3 * l);
    let tl = t.len();
    let mut z: usize = 0;
    assert(a0.subrange(0, a0.len() as int) =~= a0);
    assert(b0.subrange(0, b0.len() as int) =~= b0);
    assert(c0.subrange(0, c0.len() as int) =~= c0);
    while l - off - z > 2 && t[off + z] == '0' && t[l + off + z] == '0' && t[2 * l + off + z] == '0'
        invariant
            3 * l == t@.len(),
            tl == t@.len(),
            off <= l,
            z <= l - off,
            a0 == t@.subrange(off as int, l as int),
            b0 == t@.subrange(l + off, 2 * l),
            c0 == t@.subrange(2 * l + off, 3 * l),
            strip_zeros(a0, b0, c0) == strip_zeros(
                a0.subrange(z as int, a0.len() as int),
                b0.subrange(z as int, b0.len() as int),
                c0.subrange(z as int, c0.len() as int),
            ),
        decreases l - off - z,
    {
        assert(a0.subrange(z as int, a0.len() as int).drop_first() =~= a0.subrange(z + 1, a0.len() as int));
        assert(b0.subrange(z as int, b0.len() as int).drop_first() =~= b0.subrange(z + 1, b0.len() as int));
        assert(c0.subrange(z as int, c0.len() as int).drop_first() =~= c0.subrange(z + 1, c0.len() as int));
        z = z + 1;
    }
    assert(a0.subrange(z as int, a0.len() as int) =~= t@.subrange(off + z, l as int));
    assert(b0.subrange(z as int, b0.len() as int) =~= t@.subrange(l + off + z, 2 * l));
    assert(c0.subrange(z as int, c0.len() as int) =~= t@.subrange(2 * l + off + z, 3 * l));
    z
}

/// The rules for parsing a legacy color value.
pub fn parse_legacy_color_value(input: &str) -> (r: Option<String>)
    ensures
        r is None <==> legacy_color(input@) is None,
        r matches Some(v) ==> legacy_color(input@) == Some(v@),
{
    let chars = chars_of(input);
    if chars.len() == 0 {
        return None;
    }
    let start = trim_start_index(chars.as_slice());
    let end = trim_end_index(chars.as_slice(), start, chars.len());
    let s = slice_to_vec(slice_subrange(chars.as_slice(), start, end));
    assert(s@ == trim(input@));
    color_from(&s)
}

fn color_from(s: &Vec<char>) -> (r: Option<String>)
    ensures
        r is None <==> color_of(s@) is None,
        r matches Some(v) ==> color_of(s@) == Some(v@),
{
    if lower_is(s.as_slice(), "transparent") {
        return None;
    }
    if is_named(s.as_slice()) {
        return Some(string_of(s));
    }
    if s.len() == 4 && s[0] == '#' && is_hex_char(s[1]) && is_hex_char(s[2]) && is_hex_char(s[3]) {
        return Some(string_of(s));
    }
    let t = sanitized(s);
    let out = assembled(&t);
    Some(string_of(&out))
}

} // verus!
