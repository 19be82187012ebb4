//! The thumbnail path parser: reads a path segment of the form
//! `image-key1:value1-key2:value2-...`, optionally suffixed `.svg`, into
//! a thumbnail configuration.
use crate::numfmt::parse_u32_chars;
use crate::numfmt::parse_uint_spec;
use crate::strutil::{chars_eq_str, chars_of_str, string_from_chars};
use vstd::prelude::*;

verus! {

/// The background of a thumbnail: one flat color, or a two-stop
/// gradient.
#[derive(Debug)]
pub enum BackgroundColor {
    Solid(String),
    Gradient(String, String),
}

impl Default for BackgroundColor {
    /// The fixed purple-to-violet gradient used when no color is named.
    fn default() -> (r: Self)
        ensures
            r matches BackgroundColor::Gradient(a, b) && a@ == "#667eea"@ && b@ == "#764ba2"@,
    {
        BackgroundColor::Gradient(String::from_str("#667eea"), String::from_str("#764ba2"))
    }
}

/// A thumbnail configuration, derived entirely from one request path.
#[derive(Debug)]
pub struct ThumbnailConfig {
    pub emoji: String,
    pub title: String,
    pub body: String,
    pub font_size: u32,
    pub width: u32,
    pub height: u32,
    pub emoji_size: u32,
    pub background_color: BackgroundColor,
}

/// The mathematical shadow of a background.
#[verifier::ext_equal]
pub ghost enum BackgroundView {
    Solid(Seq<char>),
    Gradient(Seq<char>, Seq<char>),
}

/// The mathematical shadow of a configuration.
#[verifier::ext_equal]
pub ghost struct ConfigView {
    pub emoji: Seq<char>,
    pub title: Seq<char>,
    pub body: Seq<char>,
    pub font_size: nat,
    pub width: nat,
    pub height: nat,
    pub emoji_size: nat,
    pub background: BackgroundView,
}

impl View for BackgroundColor {
    type V = BackgroundView;

    open spec fn view(&self) -> BackgroundView {
        match self {
            BackgroundColor::Solid(c) => BackgroundView::Solid(c@),
            BackgroundColor::Gradient(a, b) => BackgroundView::Gradient(a@, b@),
        }
    }
}

impl View for ThumbnailConfig {
    type V = ConfigView;

    open spec fn view(&self) -> ConfigView {
        ConfigView {
            emoji: self.emoji@,
            title: self.title@,
            body: self.body@,
            font_size: self.font_size as nat,
            width: self.width as nat,
            height: self.height as nat,
            emoji_size: self.emoji_size as nat,
            background: self.background_color@,
        }
    }
}

/// The configuration used before any key is read: empty texts, font
/// size 48 on a 1200 by 630 canvas, emoji size 120, and the default
/// gradient background.
pub open spec fn default_config_view() -> ConfigView {
    ConfigView {
        emoji: Seq::empty(),
        title: Seq::empty(),
        body: Seq::empty(),
        font_size: 48,
        width: 1200,
        height: 630,
        emoji_size: 120,
        background: BackgroundView::Gradient("#667eea"@, "#764ba2"@),
    }
}

impl Default for ThumbnailConfig {
    fn default() -> (r: Self)
        ensures
            r@ == default_config_view(),
    {
        let r = ThumbnailConfig {
            emoji: String::new(),
            title: String::new(),
            body: String::new(),
            font_size: 48,
            width: 1200,
            height: 630,
            emoji_size: 120,
            background_color: BackgroundColor::default(),
        };
        proof {
            assert(r@ =~= default_config_view());
        }
        r
    }
}

/// The glyph a named emoji stands for; a name not in the fixed table
/// falls back to the name itself, permitting literal glyphs in a path.
pub open spec fn emoji_glyph(s: Seq<char>) -> Seq<char> {
    if s == "cry"@ {
        "\u{1F622}"@
    } else if s == "laugh"@ {
        "\u{1F602}"@
    } else if s == "smile"@ {
        "\u{1F60A}"@
    } else if s == "heart"@ {
        "\u{2764}\u{FE0F}"@
    } else if s == "fire"@ {
        "\u{1F525}"@
    } else if s == "star"@ {
        "\u{2B50}"@
    } else if s == "rocket"@ {
        "\u{1F680}"@
    } else if s == "check"@ {
        "\u{2705}"@
    } else if s == "cross"@ {
        "\u{274C}"@
    } else if s == "warning"@ {
        "\u{26A0}\u{FE0F}"@
    } else if s == "info"@ {
        "\u{2139}\u{FE0F}"@
    } else if s == "question"@ {
        "\u{2753}"@
    } else if s == "exclamation"@ {
        "\u{2757}"@
    } else if s == "wrench"@ {
        "\u{1F527}"@
    } else if s == "debug"@ {
        "\u{1F41B}"@
    } else if s == "developer"@ {
        "\u{1F468}\u{200D}\u{1F4BB}"@
    } else if s == "building"@ {
        "\u{1F3D7}\u{FE0F}"@
    } else {
        s
    }
}

fn emoji_glyph_chars(v: &Vec<char>) -> (r: String)
    ensures
        r@ == emoji_glyph(v@),
{
    if chars_eq_str(v, "cry") {
        String::from_str("\u{1F622}")
    } else if chars_eq_str(v, "laugh") {
        String::from_str("\u{1F602}")
    } else if chars_eq_str(v, "smile") {
        String::from_str("\u{1F60A}")
    } else if chars_eq_str(v, "heart") {
        String::from_str("\u{2764}\u{FE0F}")
    } else if chars_eq_str(v, "fire") {
        String::from_str("\u{1F525}")
    } else if chars_eq_str(v, "star") {
        String::from_str("\u{2B50}")
    } else if chars_eq_str(v, "rocket") {
        String::from_str("\u{1F680}")
    } else if chars_eq_str(v, "check") {
        String::from_str("\u{2705}")
    } else if chars_eq_str(v, "cross") {
        String::from_str("\u{274C}")
    } else if chars_eq_str(v, "warning") {
        String::from_str("\u{26A0}\u{FE0F}")
    } else if chars_eq_str(v, "info") {
        String::from_str("\u{2139}\u{FE0F}")
    } else if chars_eq_str(v, "question") {
        String::from_str("\u{2753}")
    } else if chars_eq_str(v, "exclamation") {
        String::from_str("\u{2757}")
    } else if chars_eq_str(v, "wrench") {
        String::from_str("\u{1F527}")
    } else if chars_eq_str(v, "debug") {
        String::from_str("\u{1F41B}")
    } else if chars_eq_str(v, "developer") {
        String::from_str("\u{1F468}\u{200D}\u{1F4BB}")
    } else if chars_eq_str(v, "building") {
        String::from_str("\u{1F3D7}\u{FE0F}")
    } else {
        string_from_chars(v)
    }
}

/// Looks a named emoji up in the fixed table, falling back to the name.
pub fn get_emoji(key: &str) -> (r: String)
    ensures
        r@ == emoji_glyph(key@),
{
    let v = chars_of_str(key);
    emoji_glyph_chars(&v)
}

pub open spec fn is_ascii_hexdigit_char(c: char) -> bool {
    ('0' as u32 <= c as u32 && c as u32 <= '9' as u32) || ('a' as u32 <= c as u32 && c as u32
        <= 'f' as u32) || ('A' as u32 <= c as u32 && c as u32 <= 'F' as u32)
}

/// A bare color: exactly six hexadecimal digits.
pub open spec fn is_hex_spec(s: Seq<char>) -> bool {
    s.len() == 6 && forall|i: int| 0 <= i < s.len() ==> is_ascii_hexdigit_char(s[i])
}

fn is_hex_chars(v: &Vec<char>) -> (r: bool)
    ensures
        r == is_hex_spec(v@),
{
    if v.len() != 6 {
        return false;
    }
    let mut i: usize = 0;
    while i < v.len()
        invariant
            0 <= i <= v@.len(),
            v@.len() == 6,
            forall|j: int| 0 <= j < i ==> is_ascii_hexdigit_char(v@[j]),
        decreases v@.len() - i,
    {
        let u: u32 = v[i] as u32;
        let ok: bool = (48 <= u && u <= 57) || (97 <= u && u <= 102) || (65 <= u && u <= 70);
        if !ok {
            return false;
        }
        i += 1;
    }
    true
}

/// Whether the text is a bare six-digit hexadecimal color.
pub fn is_hex(color: &str) -> (r: bool)
    ensures
        r == is_hex_spec(color@),
{
    let v = chars_of_str(color);
    is_hex_chars(&v)
}

/// Whether std's char::is_whitespace holds of the character: the
/// Unicode white-space property, a function of the character alone.
pub uninterp spec fn is_unicode_whitespace(c: char) -> bool;

/// Relies on std's char::is_whitespace: the Unicode white-space
/// property of the character.
#[verifier::external_body]
fn char_is_whitespace(c: char) -> (r: bool)
    ensures
        r == is_unicode_whitespace(c),
{
    c.is_whitespace()
}

pub open spec fn trim_start_spec(s: Seq<char>) -> Seq<char>
    decreases s.len(),
{
    if s.len() > 0 && is_unicode_whitespace(s[0]) {
        trim_start_spec(s.drop_first())
    } else {
        s
    }
}

pub open spec fn trim_end_spec(s: Seq<char>) -> Seq<char>
    decreases s.len(),
{
    if s.len() > 0 && is_unicode_whitespace(s.last()) {
        trim_end_spec(s.drop_last())
    } else {
        s
    }
}

/// The text with leading and trailing white space removed, as std's
/// str::trim leaves it.
pub open spec fn trim_spec(s: Seq<char>) -> Seq<char> {
    trim_end_spec(trim_start_spec(s))
}

fn trim_chars(v: &Vec<char>) -> (r: Vec<char>)
    ensures
        r@ == trim_spec(v@),
{
    let n = v.len();
    let mut start: usize = 0;
    proof {
        assert(v@.skip(0) =~= v@);
    }
    while start < n && char_is_whitespace(v[start])
        invariant
            0 <= start <= n,
            n == v@.len(),
            trim_start_spec(v@) == trim_start_spec(v@.skip(start as int)),
        decreases n - start,
    {
        proof {
            assert(v@.skip(start as int)[0] == v@[start as int]);
            assert(v@.skip(start as int).drop_first() =~= v@.skip(start as int + 1));
        }
        start += 1;
    }
    proof {
        if start < n {
            assert(v@.skip(start as int)[0] == v@[start as int]);
        }
        assert(trim_start_spec(v@.skip(start as int)) == v@.skip(start as int));
        assert(v@.subrange(start as int, n as int) =~= v@.skip(start as int));
    }
    let mut end: usize = n;
    while end > start && char_is_whitespace(v[end - 1])
        invariant
            start <= end <= n,
            n == v@.len(),
            trim_start_spec(v@) == v@.skip(start as int),
            trim_end_spec(v@.skip(start as int)) == trim_end_spec(
                v@.subrange(start as int, end as int),
            ),
        decreases end,
    {
        proof {
            let cur = v@.subrange(start as int, end as int);
            assert(cur.last() == v@[end - 1]);
            assert(cur.drop_last() =~= v@.subrange(start as int, end as int - 1));
        }
        end -= 1;
    }
    proof {
        let cur = v@.subrange(start as int, end as int);
        if end > start {
            assert(cur.last() == v@[end - 1]);
        }
        assert(trim_end_spec(cur) == cur);
    }
    let mut r: Vec<char> = Vec::new();
    let mut i: usize = start;
    while i < end
        invariant
            start <= i <= end <= n,
            n == v@.len(),
            r@ == v@.subrange(start as int, i as int),
        decreases end - i,
    {
        r.push(v[i]);
        assert(v@.subrange(start as int, i as int).push(v@[i as int]) =~= v@.subrange(
            start as int,
            i as int + 1,
        ));
        i += 1;
    }
    r
}

/// What normalizing a color does: trim it, and put `#` before a bare
/// six-digit hexadecimal value.
pub open spec fn parse_color_spec(s: Seq<char>) -> Seq<char> {
    let t = trim_spec(s);
    if is_hex_spec(t) {
        seq!['#'] + t
    } else {
        t
    }
}

fn parse_color_chars(v: &Vec<char>) -> (r: String)
    ensures
        r@ == parse_color_spec(v@),
{
    let mut t = trim_chars(v);
    if is_hex_chars(&t) {
        let ghost trimmed = t@;
        t.insert(0, '#');
        proof {
            assert(t@ =~= seq!['#'] + trimmed);
        }
    }
    string_from_chars(&t)
}

/// Normalizes one color value from the path.
pub fn parse_color(color: &str) -> (r: String)
    ensures
        r@ == parse_color_spec(color@),
{
    let v = chars_of_str(color);
    parse_color_chars(&v)
}

/// The path with every trailing `.svg` stripped, as str's
/// trim_end_matches leaves it.
pub open spec fn strip_svg_spec(s: Seq<char>) -> Seq<char>
    decreases s.len(),
{
    if s.len() >= 4 && s.subrange(s.len() - 4, s.len() as int) == ".svg"@ {
        strip_svg_spec(s.subrange(0, s.len() - 4))
    } else {
        s
    }
}

fn strip_svg_chars(v: &mut Vec<char>)
    ensures
        final(v)@ == strip_svg_spec(old(v)@),
{
    proof {
        reveal_strlit(".svg");
    }
    loop
        invariant
            strip_svg_spec(old(v)@) == strip_svg_spec(v@),
        decreases v@.len(),
    {
        let n = v.len();
        let has_suffix: bool = n >= 4 && v[n - 4] == '.' && v[n - 3] == 's' && v[n - 2] == 'v'
            && v[n - 1] == 'g';
        proof {
            if n >= 4 {
                assert((v@.subrange(n - 4, n as int) == ".svg"@) == (v@[n - 4] == '.' && v@[n - 3]
                    == 's' && v@[n - 2] == 'v' && v@[n - 1] == 'g')) by {
                    reveal_strlit(".svg");
                    assert(".svg"@.len() == 4);
                    if v@[n - 4] == '.' && v@[n - 3] == 's' && v@[n - 2] == 'v' && v@[n - 1]
                        == 'g' {
                        assert(v@.subrange(n - 4, n as int) =~= ".svg"@);
                    }
                    if v@.subrange(n - 4, n as int) == ".svg"@ {
                        assert(v@[n - 4] == v@.subrange(n - 4, n as int)[0]);
                        assert(v@[n - 3] == v@.subrange(n - 4, n as int)[1]);
                        assert(v@[n - 2] == v@.subrange(n - 4, n as int)[2]);
                        assert(v@[n - 1] == v@.subrange(n - 4, n as int)[3]);
                    }
                }
            }
        }
        if !has_suffix {
            return ;
        }
        v.truncate(n - 4);
    }
}

/// Splitting on a separator, as str's split yields it: every segment in
/// order, empty segments kept, one empty segment for empty text.
pub open spec fn split_on(s: Seq<char>, c: char) -> Seq<Seq<char>>
    decreases s.len(),
{
    if s.len() == 0 {
        seq![Seq::<char>::empty()]
    } else if s[0] == c {
        seq![Seq::<char>::empty()] + split_on(s.drop_first(), c)
    } else {
        let rest = split_on(s.drop_first(), c);
        seq![seq![s[0]] + rest[0]] + rest.drop_first()
    }
}

proof fn lemma_split_on_len(s: Seq<char>, c: char)
    ensures
        split_on(s, c).len() >= 1,
    decreases s.len(),
{
    if s.len() > 0 {
        lemma_split_on_len(s.drop_first(), c);
    }
}

fn split_chars(v: &Vec<char>, c: char) -> (parts: Vec<Vec<char>>)
    ensures
        parts@.map_values(|p: Vec<char>| p@) == split_on(v@, c),
{
    let n = v.len();
    let mut parts: Vec<Vec<char>> = Vec::new();
    let mut buf: Vec<char> = Vec::new();
    let mut i: usize = 0;
    proof {
        lemma_split_on_len(v@, c);
        assert(v@.skip(0) =~= v@);
        let rest = split_on(v@, c);
        assert(Seq::<char>::empty() + rest[0] =~= rest[0]);
        assert(parts@.map_values(|p: Vec<char>| p@) + seq![buf@ + rest[0]] + rest.drop_first()
            =~= rest);
    }
    while i < n
        invariant
            0 <= i <= n,
            n == v@.len(),
            split_on(v@.skip(i as int), c).len() >= 1,
            split_on(v@, c) == parts@.map_values(|p: Vec<char>| p@) + seq![
                buf@ + split_on(v@.skip(i as int), c)[0],
            ] + split_on(v@.skip(i as int), c).drop_first(),
        decreases n - i,
    {
        let ghost rest = split_on(v@.skip(i as int), c);
        proof {
            lemma_split_on_len(v@.skip(i as int + 1), c);
            assert(v@.skip(i as int)[0] == v@[i as int]);
            assert(v@.skip(i as int).drop_first() =~= v@.skip(i as int + 1));
        }
        let ch = v[i];
        if ch == c {
            let done = buf;
            buf = Vec::new();
            let ghost old_parts = parts@;
            parts.push(done);
            proof {
                let next = split_on(v@.skip(i as int + 1), c);
                assert(rest == seq![Seq::<char>::empty()] + next);
                assert(rest[0] =~= Seq::<char>::empty());
                assert(rest.drop_first() =~= next);
                assert(done@ + rest[0] =~= done@);
                assert(parts@.map_values(|p: Vec<char>| p@) =~= old_parts.map_values(
                    |p: Vec<char>| p@,
                ).push(done@));
                assert(old_parts.map_values(|p: Vec<char>| p@) + seq![done@ + rest[0]]
                    + rest.drop_first() =~= parts@.map_values(|p: Vec<char>| p@) + seq![
                    Seq::<char>::empty() + next[0],
                ] + next.drop_first());
                assert(Seq::<char>::empty() + next[0] =~= next[0]);
                assert(seq![next[0]] =~= seq![Seq::<char>::empty() + next[0]]);
            }
        } else {
            let ghost old_buf = buf@;
            buf.push(ch);
            proof {
                let next = split_on(v@.skip(i as int + 1), c);
                assert(rest == seq![seq![v@[i as int]] + next[0]] + next.drop_first());
                assert(rest[0] == seq![v@[i as int]] + next[0]);
                assert(rest.drop_first() =~= next.drop_first());
                assert(buf@ =~= old_buf.push(v@[i as int]));
                assert(buf@ + next[0] =~= old_buf + rest[0]);
                assert(seq![buf@ + next[0]] =~= seq![old_buf + rest[0]]);
            }
        }
        i += 1;
    }
    proof {
        assert(v@.skip(n as int) =~= Seq::<char>::empty());
        assert(split_on(v@.skip(n as int), c) == seq![Seq::<char>::empty()]);
    }
    let ghost old_parts = parts@;
    parts.push(buf);
    proof {
        assert(buf@ + Seq::<char>::empty() =~= buf@);
        assert(seq![buf@ + split_on(v@.skip(n as int), c)[0]] =~= seq![buf@]);
        assert(split_on(v@.skip(n as int), c).drop_first() =~= Seq::<Seq<char>>::empty());
        assert(parts@.map_values(|p: Vec<char>| p@) =~= old_parts.map_values(|p: Vec<char>| p@)
            + seq![buf@]);
        assert(parts@.map_values(|p: Vec<char>| p@) =~= split_on(v@, c));
    }
    parts
}

/// Splitting once on the first separator, as str's split_once yields
/// it: nothing when the separator does not occur.
pub open spec fn split_once_spec(s: Seq<char>, c: char) -> Option<(Seq<char>, Seq<char>)>
    decreases s.len(),
{
    if s.len() == 0 {
        None
    } else if s[0] == c {
        Some((Seq::empty(), s.drop_first()))
    } else {
        match split_once_spec(s.drop_first(), c) {
            None => None,
            Some((a, b)) => Some((seq![s[0]] + a, b)),
        }
    }
}

proof fn lemma_split_once_prefix(s: Seq<char>, c: char, i: int)
    requires
        0 <= i < s.len(),
        forall|j: int| 0 <= j < i ==> s[j] != c,
        s[i] == c,
    ensures
        split_once_spec(s, c) == Some((s.subrange(0, i), s.skip(i + 1))),
    decreases i,
{
    if i == 0 {
        assert(s.subrange(0, 0) =~= Seq::<char>::empty());
        assert(s.drop_first() =~= s.skip(1));
    } else {
        lemma_split_once_prefix(s.drop_first(), c, i - 1);
        assert(s.drop_first()[i - 1] == s[i]);
        assert(seq![s[0]] + s.drop_first().subrange(0, i - 1) =~= s.subrange(0, i));
        assert(s.drop_first().skip(i) =~= s.skip(i + 1));
    }
}

proof fn lemma_split_once_none(s: Seq<char>, c: char)
    requires
        forall|j: int| 0 <= j < s.len() ==> s[j] != c,
    ensures
        split_once_spec(s, c) is None,
    decreases s.len(),
{
    if s.len() > 0 {
        lemma_split_once_none(s.drop_first(), c);
    }
}

fn split_once_chars(v: &Vec<char>, c: char) -> (r: Option<(Vec<char>, Vec<char>)>)
    ensures
        match r {
            Some(kv) => split_once_spec(v@, c) == Some((kv.0@, kv.1@)),
            None => split_once_spec(v@, c) is None,
        },
{
    let n = v.len();
    let mut i: usize = 0;
    while i < n
        invariant
            0 <= i <= n,
            n == v@.len(),
            forall|j: int| 0 <= j < i ==> v@[j] != c,
        decreases n - i,
    {
        if v[i] == c {
            let mut key: Vec<char> = Vec::new();
            let mut k: usize = 0;
            while k < i
                invariant
                    0 <= k <= i < n,
                    n == v@.len(),
                    key@ == v@.subrange(0, k as int),
                decreases i - k,
            {
                key.push(v[k]);
                assert(v@.subrange(0, k as int).push(v@[k as int]) =~= v@.subrange(
                    0,
                    k as int + 1,
                ));
                k += 1;
            }
            let mut value: Vec<char> = Vec::new();
            let mut m: usize = i + 1;
            while m < n
                invariant
                    i + 1 <= m <= n,
                    n == v@.len(),
                    value@ == v@.subrange(i as int + 1, m as int),
                decreases n - m,
            {
                value.push(v[m]);
                assert(v@.subrange(i as int + 1, m as int).push(v@[m as int]) =~= v@.subrange(
                    i as int + 1,
                    m as int + 1,
                ));
                m += 1;
            }
            proof {
                lemma_split_once_prefix(v@, c, i as int);
                assert(value@ =~= v@.skip(i as int + 1));
            }
            return Some((key, value));
        }
        i += 1;
    }
    proof {
        lemma_split_once_none(v@, c);
    }
    None
}

pub open spec fn has_char(s: Seq<char>, c: char) -> bool {
    exists|i: int| 0 <= i < s.len() && s[i] == c
}

fn contains_char(v: &Vec<char>, c: char) -> (r: bool)
    ensures
        r == has_char(v@, c),
{
    let mut i: usize = 0;
    while i < v.len()
        invariant
            0 <= i <= v@.len(),
            forall|j: int| 0 <= j < i ==> v@[j] != c,
        decreases v@.len() - i,
    {
        if v[i] == c {
            return true;
        }
        i += 1;
    }
    false
}

/// How one `key:value` segment changes the configuration: recognized
/// keys set their field, unrecognized keys and segments without a colon
/// change nothing, and an unreadable font size keeps what was there.
pub open spec fn apply_segment(cfg: ConfigView, seg: Seq<char>) -> ConfigView {
    match split_once_spec(seg, ':') {
        None => cfg,
        Some((key, value)) => {
            if key == "emoji"@ {
                ConfigView { emoji: emoji_glyph(value), ..cfg }
            } else if key == "title"@ {
                ConfigView { title: value, ..cfg }
            } else if key == "body"@ {
                ConfigView { body: value, ..cfg }
            } else if key == "fontSize"@ {
                match parse_uint_spec(value, u32::MAX as nat) {
                    Some(n) => ConfigView { font_size: n, ..cfg },
                    None => cfg,
                }
            } else if key == "backgroundColor"@ {
                if has_char(value, ',') {
                    let colors = split_on(value, ',');
                    if colors.len() >= 2 {
                        ConfigView {
                            background: BackgroundView::Gradient(
                                parse_color_spec(colors[0]),
                                parse_color_spec(colors[1]),
                            ),
                            ..cfg
                        }
                    } else {
                        cfg
                    }
                } else {
                    ConfigView { background: BackgroundView::Solid(parse_color_spec(value)), ..cfg }
                }
            } else {
                cfg
            }
        },
    }
}

/// The configuration after reading the segments from `from` on.
pub open spec fn apply_segments(cfg: ConfigView, parts: Seq<Seq<char>>, from: int) -> ConfigView
    decreases parts.len() - from,
{
    if from < 0 || from >= parts.len() {
        cfg
    } else {
        apply_segments(apply_segment(cfg, parts[from]), parts, from + 1)
    }
}

fn apply_segment_exec(cfg: ThumbnailConfig, seg: &Vec<char>) -> (r: ThumbnailConfig)
    ensures
        r@ == apply_segment(cfg@, seg@),
{
    let ghost cfg0 = cfg@;
    let mut cfg = cfg;
    let kv = match split_once_chars(seg, ':') {
        None => {
            return cfg;
        },
        Some(kv) => kv,
    };
    let (key, value) = kv;
    if chars_eq_str(&key, "emoji") {
        cfg.emoji = emoji_glyph_chars(&value);
        proof {
            assert(cfg@ =~= apply_segment(cfg0, seg@));
        }
    } else if chars_eq_str(&key, "title") {
        cfg.title = string_from_chars(&value);
        proof {
            assert(cfg@ =~= apply_segment(cfg0, seg@));
        }
    } else if chars_eq_str(&key, "body") {
        cfg.body = string_from_chars(&value);
        proof {
            assert(cfg@ =~= apply_segment(cfg0, seg@));
        }
    } else if chars_eq_str(&key, "fontSize") {
        match parse_u32_chars(&value) {
            Some(n) => {
                cfg.font_size = n;
                proof {
                    assert(cfg@ =~= apply_segment(cfg0, seg@));
                }
            },
            None => {
                proof {
                    assert(cfg@ =~= apply_segment(cfg0, seg@));
                }
            },
        }
    } else if chars_eq_str(&key, "backgroundColor") {
        if contains_char(&value, ',') {
            let colors = split_chars(&value, ',');
            if colors.len() >= 2 {
                let a = parse_color_chars(&colors[0]);
                let b = parse_color_chars(&colors[1]);
                cfg.background_color = BackgroundColor::Gradient(a, b);
                proof {
                    let sp = split_on(value@, ',');
                    assert(sp[0] == colors@[0]@);
                    assert(sp[1] == colors@[1]@);
                    assert(cfg@ =~= apply_segment(cfg0, seg@));
                }
            } else {
                proof {
                    assert(cfg@ =~= apply_segment(cfg0, seg@));
                }
            }
        } else {
            cfg.background_color = BackgroundColor::Solid(parse_color_chars(&value));
            proof {
                assert(cfg@ =~= apply_segment(cfg0, seg@));
            }
        }
    } else {
        proof {
            assert(cfg@ =~= apply_segment(cfg0, seg@));
        }
    }
    cfg
}

/// Parses a thumbnail path: strips any `.svg` suffix, splits on `-`,
/// demands the literal first segment `image`, and folds the remaining
/// `key:value` segments over the default configuration. A path not
/// shaped that way carries no configuration.
pub fn parse_thumbnail_path(path: &str) -> (r: Option<ThumbnailConfig>)
    ensures
        match r {
            Some(cfg) => parse_path_spec(path@) == Some(cfg@),
            None => parse_path_spec(path@) is None,
        },
{
    let mut chars = chars_of_str(path);
    strip_svg_chars(&mut chars);
    let parts = split_chars(&chars, '-');
    let ghost sp = split_on(strip_svg_spec(path@), '-');
    proof {
        assert(parts@.map_values(|p: Vec<char>| p@) == sp);
        assert(parts@.len() == sp.len());
    }
    if parts.len() < 2 {
        return None;
    }
    if !chars_eq_str(&parts[0], "image") {
        proof {
            assert(sp[0] == parts@[0]@);
        }
        return None;
    }
    proof {
        assert(sp[0] == parts@[0]@);
    }
    let mut cfg = ThumbnailConfig::default();
    let mut i: usize = 1;
    while i < parts.len()
        invariant
            1 <= i <= parts@.len(),
            sp == parts@.map_values(|p: Vec<char>| p@),
            apply_segments(default_config_view(), sp, 1) == apply_segments(cfg@, sp, i as int),
        decreases parts@.len() - i,
    {
        proof {
            assert(sp[i as int] == parts@[i as int]@);
        }
        cfg = apply_segment_exec(cfg, &parts[i]);
        i += 1;
    }
    Some(cfg)
}

/// What parsing a thumbnail path yields.
pub open spec fn parse_path_spec(s: Seq<char>) -> Option<ConfigView> {
    let stripped = strip_svg_spec(s);
    let parts = split_on(stripped, '-');
    if parts.len() < 2 || parts[0] != "image"@ {
        None
    } else {
        Some(apply_segments(default_config_view(), parts, 1))
    }
}

} // verus!
