//! Font selection: which font files the renderer tries, in which order, and the
//! renderer that holds the first one fontdue accepts.
use crate::font_file::{fontdue_accepts, parse_font, ParsedFont};
use crate::text::str_is;
use fontdue::Font;
use vstd::prelude::*;

verus! {

/// What `str::to_lowercase` gives (Unicode lowercase mapping).
pub uninterp spec fn lowercase_of(s: Seq<char>) -> Seq<char>;

/// Whether every character of `s` is ASCII.
pub open spec fn is_ascii_text(s: Seq<char>) -> bool {
    forall|i: int| 0 <= i < s.len() ==> (#[trigger] s[i] as u32) < 128
}

/// The lowercase of an ASCII character: `A` to `Z` become `a` to `z`, every
/// other character stays.
pub open spec fn ascii_lower_char(c: char) -> char {
    if 65 <= (c as u32) && (c as u32) <= 90 {
        ((c as u32) + 32) as char
    } else {
        c
    }
}

/// `s` with every ASCII capital letter lowercased.
pub open spec fn ascii_lower(s: Seq<char>) -> Seq<char> {
    s.map_values(|c: char| ascii_lower_char(c))
}

/// `str::to_lowercase`, whose result is named by `lowercase_of`. std documents it
/// as the Unicode lowercase mapping of each character (`char::to_lowercase`), which
/// for ASCII text maps `A`-`Z` to `a`-`z` and keeps every other character; that
/// much is stated, and nothing of other text.
#[verifier::external_body]
fn to_lowercase(s: &str) -> (r: String)
    ensures
        r@ == lowercase_of(s@),
        is_ascii_text(s@) ==> r@ == ascii_lower(s@),
{
    s.to_lowercase()
}

/// The font files tried for a family name (lower-cased), before the final fallback.
pub open spec fn family_font_files(family: Seq<char>) -> Seq<Seq<char>> {
    if family == "roboto"@ {
        seq![
            "/usr/share/fonts/truetype/roboto/unhinted/RobotoTTF/Roboto-Bold.ttf"@,
            "/usr/share/fonts/truetype/roboto/unhinted/RobotoTTF/Roboto-Regular.ttf"@,
        ]
    } else if family == "roboto slab"@ {
        seq![
            "/usr/share/fonts/truetype/roboto-slab/RobotoSlab-Bold.ttf"@,
            "/usr/share/fonts/truetype/roboto-slab/RobotoSlab-Regular.ttf"@,
        ]
    } else if family == "monospace"@ || family == "liberation mono"@ {
        seq![
            "/usr/share/fonts/truetype/liberation/LiberationMono-Bold.ttf"@,
            "/usr/share/fonts/truetype/liberation/LiberationMono-Regular.ttf"@,
        ]
    } else if family == "liberation serif"@ {
        seq![
            "/usr/share/fonts/truetype/liberation/LiberationSerif-Bold.ttf"@,
            "/usr/share/fonts/truetype/liberation/LiberationSerif-Regular.ttf"@,
        ]
    } else {
        seq![
            "/usr/share/fonts/truetype/liberation/LiberationSans-Bold.ttf"@,
            "/usr/share/fonts/truetype/liberation/LiberationSans-Regular.ttf"@,
            "/usr/share/fonts/truetype/dejavu/DejaVuSans-Bold.ttf"@,
        ]
    }
}

/// A custom font file first, where there is one.
pub open spec fn custom_first(custom: Option<&str>) -> Seq<Seq<char>> {
    match custom {
        Some(p) => seq![p@],
        None => seq![],
    }
}

/// The font files tried when the font is changed: the custom file, the files of
/// the family, and Liberation Sans Bold last.
pub open spec fn font_files_for(custom: Option<&str>, family: Seq<char>) -> Seq<Seq<char>> {
    custom_first(custom) + family_font_files(lowercase_of(family)) + seq![
        "/usr/share/fonts/truetype/liberation/LiberationSans-Bold.ttf"@,
    ]
}

/// The font files tried when the font is changed to an ASCII family name.
pub open spec fn ascii_font_files_for(custom: Option<&str>, family: Seq<char>) -> Seq<Seq<char>> {
    custom_first(custom) + family_font_files(ascii_lower(family)) + seq![
        "/usr/share/fonts/truetype/liberation/LiberationSans-Bold.ttf"@,
    ]
}

/// Lowercasing an ASCII name twice gives what lowercasing it once gives.
proof fn lemma_ascii_lower_idempotent(f: Seq<char>)
    ensures
        ascii_lower(ascii_lower(f)) == ascii_lower(f),
{
    assert forall|i: int| 0 <= i < f.len() implies #[trigger] ascii_lower(ascii_lower(f))[i]
        == ascii_lower(f)[i] by {
        let c = f[i];
        if 65 <= (c as u32) && (c as u32) <= 90 {
            assert((((c as u32) + 32) as char) as u32 == (c as u32) + 32);
        }
    }
    assert(ascii_lower(ascii_lower(f)) =~= ascii_lower(f));
}

/// A family name and its lowercase pick the same font files (for ASCII names).
pub proof fn lemma_lowercase_family_same_files(custom: Option<&str>, family: Seq<char>)
    ensures
        ascii_font_files_for(custom, family) == ascii_font_files_for(custom, ascii_lower(family)),
{
    lemma_ascii_lower_idempotent(family);
}

/// A family whose lowercase is none of the known names picks the files of
/// Liberation Sans.
pub proof fn lemma_unknown_family_is_liberation_sans(custom: Option<&str>, family: Seq<char>)
    requires
        ascii_lower(family) != "roboto"@,
        ascii_lower(family) != "roboto slab"@,
        ascii_lower(family) != "monospace"@,
        ascii_lower(family) != "liberation mono"@,
        ascii_lower(family) != "liberation serif"@,
    ensures
        ascii_font_files_for(custom, family) == ascii_font_files_for(custom, "Liberation Sans"@),
{
    reveal_strlit("Liberation Sans");
    reveal_strlit("liberation sans");
    reveal_strlit("roboto");
    reveal_strlit("roboto slab");
    reveal_strlit("monospace");
    reveal_strlit("liberation mono");
    reveal_strlit("liberation serif");
    let lib = ascii_lower("Liberation Sans"@);
    assert(lib =~= "liberation sans"@);
    assert(lib.len() != "roboto"@.len());
    assert(lib.len() != "monospace"@.len());
    assert(lib.len() != "roboto slab"@.len());
    assert(lib[11] != "liberation mono"@[11]);
    assert(lib[12] != "liberation serif"@[12]);
}

/// Each known family name (in any case that lowercases to it) tries that family's
/// two files, then Liberation Sans Bold: Roboto, Roboto Slab, Liberation Mono
/// (also for `monospace`) and Liberation Serif.
pub proof fn lemma_known_family_files(custom: Option<&str>, family: Seq<char>)
    ensures
        lowercase_of(family) == "roboto"@ ==> font_files_for(custom, family) == custom_first(custom)
            + seq![
            "/usr/share/fonts/truetype/roboto/unhinted/RobotoTTF/Roboto-Bold.ttf"@,
            "/usr/share/fonts/truetype/roboto/unhinted/RobotoTTF/Roboto-Regular.ttf"@,
            "/usr/share/fonts/truetype/liberation/LiberationSans-Bold.ttf"@,
        ],
        lowercase_of(family) == "roboto slab"@ ==> font_files_for(custom, family) == custom_first(
            custom,
        ) + seq![
            "/usr/share/fonts/truetype/roboto-slab/RobotoSlab-Bold.ttf"@,
            "/usr/share/fonts/truetype/roboto-slab/RobotoSlab-Regular.ttf"@,
            "/usr/share/fonts/truetype/liberation/LiberationSans-Bold.ttf"@,
        ],
        lowercase_of(family) == "monospace"@ || lowercase_of(family) == "liberation mono"@
            ==> font_files_for(custom, family) == custom_first(custom) + seq![
            "/usr/share/fonts/truetype/liberation/LiberationMono-Bold.ttf"@,
            "/usr/share/fonts/truetype/liberation/LiberationMono-Regular.ttf"@,
            "/usr/share/fonts/truetype/liberation/LiberationSans-Bold.ttf"@,
        ],
        lowercase_of(family) == "liberation serif"@ ==> font_files_for(custom, family)
            == custom_first(custom) + seq![
            "/usr/share/fonts/truetype/liberation/LiberationSerif-Bold.ttf"@,
            "/usr/share/fonts/truetype/liberation/LiberationSerif-Regular.ttf"@,
            "/usr/share/fonts/truetype/liberation/LiberationSans-Bold.ttf"@,
        ],
{
    reveal_strlit("roboto");
    reveal_strlit("roboto slab");
    reveal_strlit("monospace");
    reveal_strlit("liberation mono");
    reveal_strlit("liberation serif");
    assert("roboto"@.len() != "roboto slab"@.len());
    assert("roboto"@.len() != "monospace"@.len());
    assert("roboto"@.len() != "liberation mono"@.len());
    assert("roboto"@.len() != "liberation serif"@.len());
    assert("roboto slab"@.len() != "monospace"@.len());
    assert("roboto slab"@.len() != "liberation mono"@.len());
    assert("roboto slab"@.len() != "liberation serif"@.len());
    assert("monospace"@.len() != "liberation mono"@.len());
    assert("monospace"@.len() != "liberation serif"@.len());
    assert("liberation mono"@[11] != "liberation serif"@[11]);
    let l = lowercase_of(family);
    if l == "roboto"@ {
        assert(font_files_for(custom, family) =~= custom_first(custom) + seq![
            "/usr/share/fonts/truetype/roboto/unhinted/RobotoTTF/Roboto-Bold.ttf"@,
            "/usr/share/fonts/truetype/roboto/unhinted/RobotoTTF/Roboto-Regular.ttf"@,
            "/usr/share/fonts/truetype/liberation/LiberationSans-Bold.ttf"@,
        ]);
    }
    if l == "roboto slab"@ {
        assert(font_files_for(custom, family) =~= custom_first(custom) + seq![
            "/usr/share/fonts/truetype/roboto-slab/RobotoSlab-Bold.ttf"@,
            "/usr/share/fonts/truetype/roboto-slab/RobotoSlab-Regular.ttf"@,
            "/usr/share/fonts/truetype/liberation/LiberationSans-Bold.ttf"@,
        ]);
    }
    if l == "monospace"@ || l == "liberation mono"@ {
        assert(font_files_for(custom, family) =~= custom_first(custom) + seq![
            "/usr/share/fonts/truetype/liberation/LiberationMono-Bold.ttf"@,
            "/usr/share/fonts/truetype/liberation/LiberationMono-Regular.ttf"@,
            "/usr/share/fonts/truetype/liberation/LiberationSans-Bold.ttf"@,
        ]);
    }
    if l == "liberation serif"@ {
        assert(font_files_for(custom, family) =~= custom_first(custom) + seq![
            "/usr/share/fonts/truetype/liberation/LiberationSerif-Bold.ttf"@,
            "/usr/share/fonts/truetype/liberation/LiberationSerif-Regular.ttf"@,
            "/usr/share/fonts/truetype/liberation/LiberationSans-Bold.ttf"@,
        ]);
    }
}

/// The font files tried when the renderer starts: the custom file, then four
/// system fonts.
pub open spec fn startup_font_files_spec(custom: Option<&str>) -> Seq<Seq<char>> {
    custom_first(custom) + seq![
        "/usr/share/fonts/truetype/liberation/LiberationSans-Bold.ttf"@,
        "/usr/share/fonts/truetype/liberation/LiberationSans-Regular.ttf"@,
        "/usr/share/fonts/truetype/dejavu/DejaVuSans-Bold.ttf"@,
        "/usr/share/fonts/truetype/roboto-slab/RobotoSlab-Bold.ttf"@,
    ]
}

/// The views of a list of strings.
pub open spec fn views(v: Seq<String>) -> Seq<Seq<char>> {
    v.map_values(|s: String| s@)
}

/// Appends a copy of `s` to `v`.
fn push_str(v: &mut Vec<String>, s: &str)
    ensures
        views(final(v)@) == views(old(v)@).push(s@),
{
    v.push(String::from_str(s));
    assert(views(v@) =~= views(old(v)@).push(s@));
}

/// The font files tried when the renderer starts.
pub fn startup_font_files(custom: Option<&str>) -> (files: Vec<String>)
    ensures
        views(files@) == startup_font_files_spec(custom),
{
    let mut files: Vec<String> = Vec::new();
    if let Some(p) = custom {
        push_str(&mut files, p);
    }
    push_str(&mut files, "/usr/share/fonts/truetype/liberation/LiberationSans-Bold.ttf");
    push_str(&mut files, "/usr/share/fonts/truetype/liberation/LiberationSans-Regular.ttf");
    push_str(&mut files, "/usr/share/fonts/truetype/dejavu/DejaVuSans-Bold.ttf");
    push_str(&mut files, "/usr/share/fonts/truetype/roboto-slab/RobotoSlab-Bold.ttf");
    assert(views(files@) =~= startup_font_files_spec(custom));
    files
}

/// The font files tried when the font is changed to `family` (with an optional
/// custom file).
pub fn font_files(custom: Option<&str>, family: &str) -> (files: Vec<String>)
    ensures
        views(files@) == font_files_for(custom, family@),
        is_ascii_text(family@) ==> views(files@) == ascii_font_files_for(custom, family@),
{
    let mut files: Vec<String> = Vec::new();
    if let Some(p) = custom {
        push_str(&mut files, p);
    }
    let ghost head = views(files@);
    let lower = to_lowercase(family);
    let f = lower.as_str();
    if str_is(f, "roboto") {
        push_str(&mut files, "/usr/share/fonts/truetype/roboto/unhinted/RobotoTTF/Roboto-Bold.ttf");
        push_str(
            &mut files,
            "/usr/share/fonts/truetype/roboto/unhinted/RobotoTTF/Roboto-Regular.ttf",
        );
    } else if str_is(f, "roboto slab") {
        push_str(&mut files, "/usr/share/fonts/truetype/roboto-slab/RobotoSlab-Bold.ttf");
        push_str(&mut files, "/usr/share/fonts/truetype/roboto-slab/RobotoSlab-Regular.ttf");
    } else if str_is(f, "monospace") || str_is(f, "liberation mono") {
        push_str(&mut files, "/usr/share/fonts/truetype/liberation/LiberationMono-Bold.ttf");
        push_str(&mut files, "/usr/share/fonts/truetype/liberation/LiberationMono-Regular.ttf");
    } else if str_is(f, "liberation serif") {
        push_str(&mut files, "/usr/share/fonts/truetype/liberation/LiberationSerif-Bold.ttf");
        push_str(&mut files, "/usr/share/fonts/truetype/liberation/LiberationSerif-Regular.ttf");
    } else {
        push_str(&mut files, "/usr/share/fonts/truetype/liberation/LiberationSans-Bold.ttf");
        push_str(&mut files, "/usr/share/fonts/truetype/liberation/LiberationSans-Regular.ttf");
        push_str(&mut files, "/usr/share/fonts/truetype/dejavu/DejaVuSans-Bold.ttf");
    }
    assert(views(files@) =~= head + family_font_files(lowercase_of(family@)));
    push_str(&mut files, "/usr/share/fonts/truetype/liberation/LiberationSans-Bold.ttf");
    assert(views(files@) =~= font_files_for(custom, family@));
    files
}

/// The index of the first candidate whose file could be read and that fontdue
/// accepts, from `from` on.
pub open spec fn first_usable_from(candidates: Seq<Option<Vec<u8>>>, from: int) -> Option<int>
    decreases candidates.len() - from,
{
    if from < 0 || from >= candidates.len() {
        None
    } else if candidates[from] matches Some(data) && fontdue_accepts(data@) {
        Some(from)
    } else {
        first_usable_from(candidates, from + 1)
    }
}

/// The index of the first usable candidate.
pub open spec fn first_usable(candidates: Seq<Option<Vec<u8>>>) -> Option<int> {
    first_usable_from(candidates, 0)
}

/// The contents of the first usable candidate.
pub open spec fn usable_data(candidates: Seq<Option<Vec<u8>>>) -> Option<Seq<u8>> {
    match first_usable(candidates) {
        Some(i) => match candidates[i] {
            Some(d) => Some(d@),
            None => None,
        },
        None => None,
    }
}

/// Candidate `i` could be read and fontdue accepts its contents.
pub open spec fn usable_at(candidates: Seq<Option<Vec<u8>>>, i: int) -> bool {
    &&& 0 <= i < candidates.len()
    &&& candidates[i] matches Some(data)
    &&& fontdue_accepts(data@)
}

/// The search from `from` on finds the first usable candidate at or after `from`.
proof fn lemma_first_usable_from(candidates: Seq<Option<Vec<u8>>>, from: int, i: int)
    requires
        0 <= from <= i,
        usable_at(candidates, i),
        forall|j: int| from <= j < i ==> !usable_at(candidates, j),
    ensures
        first_usable_from(candidates, from) == Some(i),
    decreases i - from,
{
    if from < i {
        assert(!usable_at(candidates, from));
        lemma_first_usable_from(candidates, from + 1, i);
    }
}

/// Where no candidate from `from` on is usable, the search finds none.
proof fn lemma_none_usable_from(candidates: Seq<Option<Vec<u8>>>, from: int)
    requires
        0 <= from,
        forall|j: int| from <= j < candidates.len() ==> !usable_at(candidates, j),
    ensures
        first_usable_from(candidates, from) is None,
    decreases candidates.len() - from,
{
    if from < candidates.len() {
        assert(!usable_at(candidates, from));
        lemma_none_usable_from(candidates, from + 1);
    }
}

/// The font is taken from the first candidate that could be read and that fontdue
/// accepts, whatever comes before or after it.
pub proof fn lemma_font_from_first_usable(candidates: Seq<Option<Vec<u8>>>, i: int)
    requires
        usable_at(candidates, i),
        forall|j: int| 0 <= j < i ==> !usable_at(candidates, j),
    ensures
        candidates[i] matches Some(data) && usable_data(candidates) == Some(data@),
{
    lemma_first_usable_from(candidates, 0, i);
}

/// There is a font to take exactly where some candidate could be read and fontdue
/// accepts it.
pub proof fn lemma_font_found_iff_some_usable(candidates: Seq<Option<Vec<u8>>>)
    ensures
        (usable_data(candidates) is Some) == (exists|i: int| usable_at(candidates, i)),
{
    if exists|i: int| usable_at(candidates, i) {
        let i = choose|i: int| usable_at(candidates, i);
        lemma_earliest_usable(candidates, i);
        let e = choose|e: int|
            usable_at(candidates, e) && forall|j: int| 0 <= j < e ==> !usable_at(candidates, j);
        lemma_font_from_first_usable(candidates, e);
    } else {
        lemma_none_usable_from(candidates, 0);
    }
}

/// A usable candidate has an earliest usable one.
proof fn lemma_earliest_usable(candidates: Seq<Option<Vec<u8>>>, i: int)
    requires
        usable_at(candidates, i),
    ensures
        exists|e: int|
            usable_at(candidates, e) && forall|j: int| 0 <= j < e ==> !usable_at(candidates, j),
    decreases i,
{
    if exists|j: int| 0 <= j < i && usable_at(candidates, j) {
        let j = choose|j: int| 0 <= j < i && usable_at(candidates, j);
        lemma_earliest_usable(candidates, j);
    } else {
        assert(usable_at(candidates, i) && forall|j: int| 0 <= j < i ==> !usable_at(candidates, j));
    }
}

/// The first font among `candidates` (the contents of the candidate files, `None`
/// where a file could not be read) that fontdue accepts, with the contents it was
/// parsed from.
fn first_font(candidates: Vec<Option<Vec<u8>>>) -> (r: Option<ParsedFont>)
    ensures
        match r {
            Some(found) => usable_data(candidates@) == Some(found.source()),
            None => usable_data(candidates@) is None,
        },
{
    let ghost all = candidates@;
    let total = candidates.len();
    let mut rest = candidates;
    let mut taken: usize = 0;
    assert(all.skip(0) =~= all);
    while rest.len() > 0
        invariant
            total == all.len(),
            all == candidates@,
            taken <= all.len(),
            rest@ == all.skip(taken as int),
            first_usable(all) == first_usable_from(all, taken as int),
        decreases rest@.len(),
    {
        assert(rest@.len() == all.len() - taken);
        assert(taken < all.len());
        let cand = rest.remove(0);
        assert(cand == all[taken as int]);
        assert(rest@ =~= all.skip(taken + 1));
        if let Some(data) = cand {
            if let Some(font) = parse_font(data) {
                assert(first_usable_from(all, taken as int) == Some(taken as int));
                return Some(font);
            }
        }
        taken = taken + 1;
    }
    None
}

/// The text renderer: it holds the font the watermark text is drawn with.
pub struct WatermarkRenderer {
    font: ParsedFont,
}

impl WatermarkRenderer {
    /// What the renderer holds: its font, with the file contents it was parsed from.
    pub closed spec fn held(&self) -> ParsedFont {
        self.font
    }

    /// The font the renderer holds.
    pub open spec fn held_font(&self) -> Font {
        self.held().font_value()
    }

    /// The contents of the font file the renderer's font was parsed from.
    pub open spec fn font_source(&self) -> Seq<u8> {
        self.held().source()
    }

    /// A renderer with the first usable font among `candidates` (the contents of
    /// the files named by `startup_font_files`, `None` where a file could not be
    /// read); an error where none is usable.
    pub fn new(candidates: Vec<Option<Vec<u8>>>) -> (r: Result<Self, String>)
        ensures
            match r {
                Ok(renderer) => usable_data(candidates@) == Some(renderer.font_source()),
                Err(e) => usable_data(candidates@) is None && e@
                    == "No suitable TTF font found on system"@,
            },
    {
        match first_font(candidates) {
            Some(font) => Ok(WatermarkRenderer { font }),
            None => Err(String::from_str("No suitable TTF font found on system")),
        }
    }

    /// Switches to the first usable font among `candidates` (the contents of the
    /// files named by `font_files`); keeps the current font where none is usable.
    pub fn update_font(&mut self, candidates: Vec<Option<Vec<u8>>>)
        ensures
            match usable_data(candidates@) {
                Some(d) => final(self).font_source() == d,
                None => final(self).held() == old(self).held(),
            },
    {
        match first_font(candidates) {
            Some(font) => {
                self.font = font;
            },
            None => {},
        }
    }

    /// The font the text is drawn with.
    pub fn font(&self) -> (f: &Font)
        ensures
            *f == self.held_font(),
    {
        self.font.font()
    }
}

} // verus!
