use std::collections::HashMap;
use vstd::prelude::*;

verus! {

broadcast use vstd::std_specs::hash::group_hash_axioms;

/// The kind of an annotation. Each kind has a numeric code (see
/// `AnnotationType::code`) that is what a stored document holds; code 7 is
/// not used.
#[derive(Debug, Clone, Copy, PartialEq, Eq, Structural)]
pub enum AnnotationType {
    Text,
    Line,
    Geom,
    Highlight,
    Stamp,
    Ink,
    Caret,
    FileAttachment,
    Sound,
    Movie,
    Screen,
    Widget,
    RichMedia,
}

/// The numeric code of each annotation kind.
pub open spec fn type_code(t: AnnotationType) -> u8 {
    match t {
        AnnotationType::Text => 1,
        AnnotationType::Line => 2,
        AnnotationType::Geom => 3,
        AnnotationType::Highlight => 4,
        AnnotationType::Stamp => 5,
        AnnotationType::Ink => 6,
        AnnotationType::Caret => 8,
        AnnotationType::FileAttachment => 9,
        AnnotationType::Sound => 10,
        AnnotationType::Movie => 11,
        AnnotationType::Screen => 12,
        AnnotationType::Widget => 13,
        AnnotationType::RichMedia => 14,
    }
}

/// The annotation kind with code `c`, if any kind has it.
pub open spec fn type_of_code(c: u8) -> Option<AnnotationType> {
    if exists|t: AnnotationType| type_code(t) == c {
        Some(choose|t: AnnotationType| type_code(t) == c)
    } else {
        None
    }
}

impl AnnotationType {
    /// The numeric code under which this kind is stored.
    pub fn code(&self) -> (r: u8)
        ensures
            r == type_code(*self),
    {
        match self {
            AnnotationType::Text => 1,
            AnnotationType::Line => 2,
            AnnotationType::Geom => 3,
            AnnotationType::Highlight => 4,
            AnnotationType::Stamp => 5,
            AnnotationType::Ink => 6,
            AnnotationType::Caret => 8,
            AnnotationType::FileAttachment => 9,
            AnnotationType::Sound => 10,
            AnnotationType::Movie => 11,
            AnnotationType::Screen => 12,
            AnnotationType::Widget => 13,
            AnnotationType::RichMedia => 14,
        }
    }

    /// The kind stored under code `c`; `None` for a code that no kind has.
    pub fn from_code(c: u8) -> (r: Option<AnnotationType>)
        ensures
            r == type_of_code(c),
            r is Some ==> type_code(r->0) == c,
            r is None <==> (c == 0 || c == 7 || c > 14),
    {
        let r = if c == 1 {
            Some(AnnotationType::Text)
        } else if c == 2 {
            Some(AnnotationType::Line)
        } else if c == 3 {
            Some(AnnotationType::Geom)
        } else if c == 4 {
            Some(AnnotationType::Highlight)
        } else if c == 5 {
            Some(AnnotationType::Stamp)
        } else if c == 6 {
            Some(AnnotationType::Ink)
        } else if c == 8 {
            Some(AnnotationType::Caret)
        } else if c == 9 {
            Some(AnnotationType::FileAttachment)
        } else if c == 10 {
            Some(AnnotationType::Sound)
        } else if c == 11 {
            Some(AnnotationType::Movie)
        } else if c == 12 {
            Some(AnnotationType::Screen)
        } else if c == 13 {
            Some(AnnotationType::Widget)
        } else if c == 14 {
            Some(AnnotationType::RichMedia)
        } else {
            None
        };
        proof {
            lemma_codes_distinct();
            match r {
                Some(t) => {
                    assert(type_code(t) == c);
                }
                None => {
                    assert forall|t: AnnotationType| type_code(t) != c by {}
                }
            }
        }
        r
    }
}

/// Distinct kinds have distinct codes.
proof fn lemma_codes_distinct()
    ensures
        forall|a: AnnotationType, b: AnnotationType| type_code(a) == type_code(b) ==> a == b,
{
    assert forall|a: AnnotationType, b: AnnotationType| type_code(a) == type_code(b) implies a
        == b by {
        match a {
            AnnotationType::Text => {},
            AnnotationType::Line => {},
            AnnotationType::Geom => {},
            AnnotationType::Highlight => {},
            AnnotationType::Stamp => {},
            AnnotationType::Ink => {},
            AnnotationType::Caret => {},
            AnnotationType::FileAttachment => {},
            AnnotationType::Sound => {},
            AnnotationType::Movie => {},
            AnnotationType::Screen => {},
            AnnotationType::Widget => {},
            AnnotationType::RichMedia => {},
        }
    }
}

/// Decoding a kind's code gives the kind back, and a code that decodes is
/// the code of the kind it decodes to.
pub proof fn lemma_code_round_trip(t: AnnotationType, c: u8)
    ensures
        type_of_code(type_code(t)) == Some(t),
        type_of_code(c) == Some(t) ==> type_code(t) == c,
{
    lemma_codes_distinct();
}

/// A rectangle in page-relative coordinates. Each coordinate is held as the
/// IEEE-754 bit pattern of a 64-bit float; no ordering between the sides is
/// required.
#[derive(Debug, Clone, Copy, PartialEq, Eq, Structural)]
pub struct NormalizedRect {
    pub left: u64,
    pub top: u64,
    pub right: u64,
    pub bottom: u64,
}

/// One annotation on a page. Dates are ISO-8601 text and the color is a hex
/// code, neither of them checked; `opacity` is the bit pattern of a 64-bit
/// float.
#[derive(Debug, Clone)]
pub struct Annotation {
    pub id: String,
    pub annotation_type: AnnotationType,
    pub author: String,
    pub contents: String,
    pub unique_name: String,
    pub creation_date: String,
    pub modification_date: String,
    pub flags: i32,
    pub bounding_rect: NormalizedRect,
    pub color: String,
    pub opacity: u64,
}

/// A page of a document: its size (bit patterns of 64-bit floats) and its
/// annotations in insertion order.
#[derive(Debug, Clone)]
pub struct Page {
    pub width: u64,
    pub height: u64,
    pub annotations: Vec<Annotation>,
}

/// The annotations of one content file, by page number, with free-form
/// metadata.
#[derive(Debug, Clone)]
pub struct Document {
    pub pages: HashMap<u32, Page>,
    pub metadata: HashMap<String, String>,
}

/// The page that `add_annotation` leaves at a page number that held `old`
/// (or nothing), after adding `a`.
pub open spec fn page_with(old: Option<Page>, a: Annotation) -> (Seq<Annotation>, u64, u64) {
    match old {
        Some(p) => (p.annotations@.push(a), p.width, p.height),
        None => (seq![a], 0u64, 0u64),
    }
}

impl Document {
    /// A document without pages or metadata.
    pub open spec fn is_blank(&self) -> bool {
        self.pages@ == Map::<u32, Page>::empty() && self.metadata@ == Map::<String, String>::empty()
    }

    /// A document without annotations.
    pub fn new() -> (r: Document)
        ensures
            r.is_blank(),
    {
        Document { pages: HashMap::new(), metadata: HashMap::new() }
    }

    /// Appends `annotation` to page `page_num`, first making that page (of
    /// size zero) when the document has none under that number. Other pages
    /// and the metadata are left as they were.
    pub fn add_annotation(&mut self, page_num: u32, annotation: Annotation)
        ensures
            final(self).metadata == old(self).metadata,
            final(self).pages@.dom() == old(self).pages@.dom().insert(page_num),
            forall|k: u32|
                k != page_num && old(self).pages@.contains_key(k) ==> #[trigger] final(self).pages@[k]
                    == old(self).pages@[k],
            ({
                let p = final(self).pages@[page_num];
                let want = page_with(
                    if old(self).pages@.contains_key(page_num) {
                        Some(old(self).pages@[page_num])
                    } else {
                        None
                    },
                    annotation,
                );
                p.annotations@ == want.0 && p.width == want.1 && p.height == want.2
            }),
    {
        let ghost a = annotation;
        let page = match self.pages.remove(&page_num) {
            Some(mut p) => {
                p.annotations.push(annotation);
                p
            },
            None => {
                let mut anns: Vec<Annotation> = Vec::new();
                anns.push(annotation);
                assert(anns@ =~= seq![a]);
                Page { width: 0, height: 0, annotations: anns }
            },
        };
        self.pages.insert(page_num, page);
        assert(self.pages@.dom() =~= old(self).pages@.dom().insert(page_num));
    }
}

/// The document that loading a sidecar yields: the stored one when there
/// is a sidecar, otherwise an empty document.
pub fn document_or_blank(stored: Option<Document>) -> (r: Document)
    ensures
        stored is None ==> r.is_blank(),
        stored is Some ==> r == stored->0,
{
    match stored {
        Some(d) => d,
        None => Document::new(),
    }
}

} // verus!
