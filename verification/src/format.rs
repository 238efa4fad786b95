//! The closed set of output formats and how a requested format is recognised.

use vstd::prelude::*;

verus! {

/// The encodings an upload can be converted to.
#[derive(Clone, Copy, Debug, PartialEq, Eq, Structural)]
pub enum Format {
    JPEG,
    PNG,
    GIF,
}

/// Returned when a requested format names none of the supported encodings.
#[derive(Clone, Copy, Debug, PartialEq, Eq, Structural)]
pub struct UnknownFormat;

/// The ASCII lower-case form of a character: `A`..`Z` map to `a`..`z`, every
/// other character, ASCII or not, maps to itself.
pub open spec fn ascii_lower(c: char) -> char {
    if 'A' <= c && c <= 'Z' {
        ((c as u8 + 32) as u8) as char
    } else {
        c
    }
}

/// Two strings match when they have the same length and agree character by
/// character once ASCII letters are folded to lower case.
pub open spec fn eq_ignore_ascii_case(a: Seq<char>, b: Seq<char>) -> bool {
    &&& a.len() == b.len()
    &&& forall|i: int| 0 <= i < a.len() ==> ascii_lower(#[trigger] a[i]) == ascii_lower(b[i])
}

impl Format {
    /// The canonical, upper-case name of the format.
    pub open spec fn spec_name(self) -> Seq<char> {
        match self {
            Format::JPEG => seq!['J', 'P', 'E', 'G'],
            Format::PNG => seq!['P', 'N', 'G'],
            Format::GIF => seq!['G', 'I', 'F'],
        }
    }

    /// The lower-case file extension of the format, without the dot.
    pub open spec fn spec_extension(self) -> Seq<char> {
        match self {
            Format::JPEG => seq!['j', 'p', 'e', 'g'],
            Format::PNG => seq!['p', 'n', 'g'],
            Format::GIF => seq!['g', 'i', 'f'],
        }
    }

    /// The format a request string selects: the one whose name it matches
    /// without regard to ASCII case, if any.
    pub open spec fn parse(s: Seq<char>) -> Option<Format> {
        if eq_ignore_ascii_case(s, Format::JPEG.spec_name()) {
            Some(Format::JPEG)
        } else if eq_ignore_ascii_case(s, Format::PNG.spec_name()) {
            Some(Format::PNG)
        } else if eq_ignore_ascii_case(s, Format::GIF.spec_name()) {
            Some(Format::GIF)
        } else {
            None
        }
    }
}

/// Folds one character to ASCII lower case.
fn fold_char(c: char) -> (r: char)
    ensures
        r == ascii_lower(c),
{
    if 'A' <= c && c <= 'Z' {
        ((c as u8) + 32) as char
    } else {
        c
    }
}

/// Whether `s` matches `pattern` without regard to ASCII case.
fn matches_ignore_ascii_case(s: &str, pattern: &str) -> (r: bool)
    ensures
        r == eq_ignore_ascii_case(s@, pattern@),
{
    let n: usize = s.unicode_len();
    if n != pattern.unicode_len() {
        return false;
    }
    let mut i: usize = 0;
    while i < n
        invariant
            n == s@.len(),
            n == pattern@.len(),
            i <= n,
            forall|j: int| 0 <= j < i ==> ascii_lower(#[trigger] s@[j]) == ascii_lower(pattern@[j]),
        decreases n - i,
    {
        if fold_char(s.get_char(i)) != fold_char(pattern.get_char(i)) {
            return false;
        }
        i += 1;
    }
    true
}

impl Format {
    /// Recognises a requested format. The three names `JPEG`, `PNG` and `GIF`
    /// are accepted in any mix of upper and lower case; everything else,
    /// the empty string included, is refused.
    pub fn try_from(s: &str) -> (r: Result<Format, UnknownFormat>)
        ensures
            r == match Format::parse(s@) {
                Some(f) => Ok::<Format, UnknownFormat>(f),
                None => Err(UnknownFormat),
            },
    {
        proof {
            reveal_strlit("JPEG");
            reveal_strlit("PNG");
            reveal_strlit("GIF");
            assert("JPEG"@ =~= Format::JPEG.spec_name());
            assert("PNG"@ =~= Format::PNG.spec_name());
            assert("GIF"@ =~= Format::GIF.spec_name());
        }
        if matches_ignore_ascii_case(s, "JPEG") {
            Ok(Format::JPEG)
        } else if matches_ignore_ascii_case(s, "PNG") {
            Ok(Format::PNG)
        } else if matches_ignore_ascii_case(s, "GIF") {
            Ok(Format::GIF)
        } else {
            Err(UnknownFormat)
        }
    }

    /// The canonical name of the format, as it is displayed.
    pub fn name(self) -> (r: &'static str)
        ensures
            r@ == self.spec_name(),
    {
        proof {
            reveal_strlit("JPEG");
            reveal_strlit("PNG");
            reveal_strlit("GIF");
        }
        let r = match self {
            Format::JPEG => "JPEG",
            Format::PNG => "PNG",
            Format::GIF => "GIF",
        };
        assert(r@ =~= self.spec_name());
        r
    }

    /// The file extension that converted images of this format carry.
    pub fn extension(self) -> (r: &'static str)
        ensures
            r@ == self.spec_extension(),
    {
        proof {
            reveal_strlit("jpeg");
            reveal_strlit("png");
            reveal_strlit("gif");
        }
        let r = match self {
            Format::JPEG => "jpeg",
            Format::PNG => "png",
            Format::GIF => "gif",
        };
        assert(r@ =~= self.spec_extension());
        r
    }
}

/// Matching without regard to ASCII case is symmetric.
pub proof fn lemma_eq_ignore_ascii_case_symm(a: Seq<char>, b: Seq<char>)
    requires
        eq_ignore_ascii_case(a, b),
    ensures
        eq_ignore_ascii_case(b, a),
{
    assert forall|i: int| 0 <= i < b.len() implies ascii_lower(#[trigger] b[i]) == ascii_lower(
        a[i],
    ) by {
        assert(ascii_lower(a[i]) == ascii_lower(b[i]));
    }
}

/// Matching without regard to ASCII case is transitive.
pub proof fn lemma_eq_ignore_ascii_case_trans(a: Seq<char>, b: Seq<char>, c: Seq<char>)
    requires
        eq_ignore_ascii_case(a, b),
        eq_ignore_ascii_case(b, c),
    ensures
        eq_ignore_ascii_case(a, c),
{
    assert forall|i: int| 0 <= i < a.len() implies ascii_lower(#[trigger] a[i]) == ascii_lower(
        c[i],
    ) by {
        assert(ascii_lower(a[i]) == ascii_lower(b[i]));
        assert(ascii_lower(b[i]) == ascii_lower(c[i]));
    }
}

/// No two formats have names that match each other, whatever the casing.
pub proof fn lemma_names_distinct(f: Format, g: Format)
    requires
        f != g,
    ensures
        !eq_ignore_ascii_case(f.spec_name(), g.spec_name()),
{
    let a = f.spec_name();
    let b = g.spec_name();
    if a.len() == b.len() {
        assert(ascii_lower(a[0]) != ascii_lower(b[0]));
    }
}

/// A string that spells a format's name in any mix of upper and lower case
/// selects exactly that format.
pub proof fn lemma_parse_accepts_any_casing(s: Seq<char>, f: Format)
    requires
        eq_ignore_ascii_case(s, f.spec_name()),
    ensures
        Format::parse(s) == Some(f),
{
    assert forall|g: Format| g != f implies !eq_ignore_ascii_case(s, g.spec_name()) by {
        if eq_ignore_ascii_case(s, g.spec_name()) {
            lemma_eq_ignore_ascii_case_symm(s, f.spec_name());
            lemma_eq_ignore_ascii_case_trans(f.spec_name(), s, g.spec_name());
            lemma_names_distinct(f, g);
        }
    }
}

/// Two request strings that differ only in the case of ASCII letters select
/// the same format, or are both refused.
pub proof fn lemma_parse_ignores_case(a: Seq<char>, b: Seq<char>)
    requires
        eq_ignore_ascii_case(a, b),
    ensures
        Format::parse(a) == Format::parse(b),
{
    lemma_eq_ignore_ascii_case_symm(a, b);
    assert forall|f: Format|
        eq_ignore_ascii_case(a, f.spec_name()) == eq_ignore_ascii_case(b, f.spec_name()) by {
        if eq_ignore_ascii_case(a, f.spec_name()) {
            lemma_eq_ignore_ascii_case_trans(b, a, f.spec_name());
        }
        if eq_ignore_ascii_case(b, f.spec_name()) {
            lemma_eq_ignore_ascii_case_trans(a, b, f.spec_name());
        }
    }
}

/// A request string is refused exactly when it spells none of the three
/// names; a string that is accepted spells the name of the format it selects.
pub proof fn lemma_parse_sound(s: Seq<char>)
    ensures
        match Format::parse(s) {
            Some(f) => eq_ignore_ascii_case(s, f.spec_name()),
            None => forall|f: Format| !eq_ignore_ascii_case(s, f.spec_name()),
        },
{
}

/// Both the name and the extension of a format select that format.
pub proof fn lemma_parse_own_names(f: Format)
    ensures
        Format::parse(f.spec_name()) == Some(f),
        Format::parse(f.spec_extension()) == Some(f),
{
    lemma_parse_accepts_any_casing(f.spec_name(), f);
    let e = f.spec_extension();
    let n = f.spec_name();
    assert forall|i: int| 0 <= i < e.len() implies ascii_lower(#[trigger] e[i]) == ascii_lower(
        n[i],
    ) by {
    }
    lemma_parse_accepts_any_casing(e, f);
}

} // verus!
