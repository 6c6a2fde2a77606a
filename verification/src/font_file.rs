//! Font files parsed by fontdue. A `ParsedFont` is made only by `parse_font`, so
//! the font it holds is always the one fontdue parsed from the bytes it records.
use fontdue::Font;
use vstd::prelude::*;

verus! {

/// fontdue's `Font`, carried as an opaque value.
#[verifier::external_type_specification]
#[verifier::external_body]
pub struct ExFont(Font);

/// Whether `fontdue::Font::from_bytes` accepts a font file with the default settings.
pub uninterp spec fn fontdue_accepts(data: Seq<u8>) -> bool;

/// A font together with the contents of the file it was parsed from.
pub struct ParsedFont {
    font: Font,
    source: Ghost<Seq<u8>>,
}

impl ParsedFont {
    /// The parsed font.
    pub closed spec fn font_value(&self) -> Font {
        self.font
    }

    /// The contents of the font file.
    pub closed spec fn source(&self) -> Seq<u8> {
        self.source@
    }

    /// The parsed font.
    pub fn font(&self) -> (f: &Font)
        ensures
            *f == self.font_value(),
    {
        &self.font
    }
}

/// Parses a TrueType/OpenType file with `fontdue::Font::from_bytes` and the
/// default `FontSettings`: a font exactly where fontdue accepts the bytes, and
/// then the font fontdue built, recorded with those bytes.
#[verifier::external_body]
pub(crate) fn parse_font(data: Vec<u8>) -> (r: Option<ParsedFont>)
    ensures
        (r is Some) == fontdue_accepts(data@),
        r matches Some(p) ==> p.source() == data@,
{
    let source = Ghost(data@);
    match Font::from_bytes(data, fontdue::FontSettings::default()) {
        Ok(font) => Some(ParsedFont { font, source }),
        Err(_) => None,
    }
}

} // verus!
