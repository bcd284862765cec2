//! Resolution of dash-like characters into prolonged sound marks after
//! kana, and into one hyphen variant between alphanumerics.

use vstd::prelude::*;
use vstd::string::*;
use crate::chars::{origins_precede, read, terminated, valid_seq, CharPool, CharView};
use crate::text::{first_char, single_char, string_from_char};
use crate::transliterator::{
    all_put, apply, closes_with_terminator, edit_text, edit_views, edits_in_range, lemma_closes,
    lemma_outcome_terminated, lemma_outcome_texts, rewrite, Edit, EditView, Outcome,
    TransliterationError, Transliterator, TransliteratorFactory, TransliteratorFactoryError,
};

verus! {

/// Script, in the three high bits of a class: none.
pub const OTHER: u8 = 0x00;

/// Script: hiragana.
pub const HIRAGANA: u8 = 0x20;

/// Script: katakana.
pub const KATAKANA: u8 = 0x40;

/// Script: letters.
pub const ALPHABET: u8 = 0x60;

/// Script: digits.
pub const DIGIT: u8 = 0x80;

/// Script: hiragana or katakana.
pub const EITHER: u8 = 0xa0;

/// Flag: the character is half-width.
pub const HALFWIDTH: u8 = 0x01;

/// Flag: the character ends in a vowel.
pub const VOWEL_ENDED: u8 = 0x02;

/// Flag: the character is a hatsuon.
pub const HATSUON: u8 = 0x04;

/// Flag: the character is a sokuon.
pub const SOKUON: u8 = 0x08;

/// Flag: the character is a prolonged sound mark.
pub const PROLONGED_SOUND_MARK: u8 = 0x10;

/// The class of a character: a script in the three high bits and flags in
/// the five low ones.
#[derive(Debug, Clone, Copy, PartialEq, Eq, Structural)]
pub struct CharType {
    pub bits: u8,
}

impl CharType {
    /// Whether the class is that of a letter or a digit.
    pub open spec fn spec_is_alnum(self) -> bool {
        (self.bits & 0xe0) == ALPHABET || (self.bits & 0xe0) == DIGIT
    }

    /// Whether the class is that of a letter or a digit.
    pub fn is_alnum(&self) -> (r: bool)
        ensures
            r == self.spec_is_alnum(),
    {
        let masked = self.bits & 0xe0;
        masked == ALPHABET || masked == DIGIT
    }

    /// Whether the class is that of a half-width character.
    pub open spec fn spec_is_halfwidth(self) -> bool {
        (self.bits & HALFWIDTH) != 0
    }

    /// Whether the class is that of a half-width character.
    pub fn is_halfwidth(&self) -> (r: bool)
        ensures
            r == self.spec_is_halfwidth(),
    {
        (self.bits & HALFWIDTH) != 0
    }

    /// Whether the class has a flag in common with `flags`.
    pub open spec fn spec_has_any(self, flags: u8) -> bool {
        (flags & self.bits) != 0
    }

    /// Whether the class has a flag in common with `flags`.
    pub fn has_any(&self, flags: u8) -> (r: bool)
        ensures
            r == self.spec_has_any(flags),
    {
        (flags & self.bits) != 0
    }

    /// The class of the characters that are classed one by one: the two
    /// prolonged sound marks, and hatsuon and sokuon in each script.
    pub open spec fn spec_special(codepoint: u32) -> Option<CharType> {
        if codepoint == 0xff70 {
            Some(CharType { bits: 0x51 })
        } else if codepoint == 0x30fc {
            Some(CharType { bits: 0xb0 })
        } else if codepoint == 0x3063 {
            Some(CharType { bits: 0x28 })
        } else if codepoint == 0x3093 {
            Some(CharType { bits: 0x24 })
        } else if codepoint == 0x30c3 {
            Some(CharType { bits: 0x48 })
        } else if codepoint == 0x30f3 {
            Some(CharType { bits: 0x44 })
        } else if codepoint == 0xff6f {
            Some(CharType { bits: 0x49 })
        } else if codepoint == 0xff9d {
            Some(CharType { bits: 0x45 })
        } else {
            None
        }
    }

    /// The class of the characters that are classed one by one.
    pub fn get_special_char_type(codepoint: u32) -> (r: Option<CharType>)
        ensures
            r == Self::spec_special(codepoint),
    {
        if codepoint == 0xff70 {
            Some(CharType { bits: 0x51 })
        } else if codepoint == 0x30fc {
            Some(CharType { bits: 0xb0 })
        } else if codepoint == 0x3063 {
            Some(CharType { bits: 0x28 })
        } else if codepoint == 0x3093 {
            Some(CharType { bits: 0x24 })
        } else if codepoint == 0x30c3 {
            Some(CharType { bits: 0x48 })
        } else if codepoint == 0x30f3 {
            Some(CharType { bits: 0x44 })
        } else if codepoint == 0xff6f {
            Some(CharType { bits: 0x49 })
        } else if codepoint == 0xff9d {
            Some(CharType { bits: 0x45 })
        } else {
            None
        }
    }

    /// The class of the character with the given code point: digits and
    /// letters, half-width or full-width; then the characters classed one by
    /// one; then hiragana, katakana and half-width katakana, which end in a
    /// vowel; anything else has no class.
    pub open spec fn spec_from_codepoint(codepoint: u32) -> CharType {
        if 0x30 <= codepoint <= 0x39 {
            CharType { bits: 0x81 }
        } else if 0xff10 <= codepoint <= 0xff19 {
            CharType { bits: 0x80 }
        } else if (0x41 <= codepoint <= 0x5a) || (0x61 <= codepoint <= 0x7a) {
            CharType { bits: 0x61 }
        } else if (0xff21 <= codepoint <= 0xff3a) || (0xff41 <= codepoint <= 0xff5a) {
            CharType { bits: 0x60 }
        } else if Self::spec_special(codepoint) is Some {
            Self::spec_special(codepoint)->0
        } else if (0x3041 <= codepoint <= 0x309c) || codepoint == 0x309f {
            CharType { bits: 0x22 }
        } else if (0x30a1 <= codepoint <= 0x30fa) || (0x30fd <= codepoint <= 0x30ff) {
            CharType { bits: 0x42 }
        } else if (0xff66 <= codepoint <= 0xff6f) || (0xff71 <= codepoint <= 0xff9f) {
            CharType { bits: 0x43 }
        } else {
            CharType { bits: 0x00 }
        }
    }

    /// The class of the character with the given code point.
    pub fn from_codepoint(codepoint: u32) -> (r: CharType)
        ensures
            r == Self::spec_from_codepoint(codepoint),
    {
        if 0x30 <= codepoint && codepoint <= 0x39 {
            return CharType { bits: 0x81 };
        }
        if 0xff10 <= codepoint && codepoint <= 0xff19 {
            return CharType { bits: 0x80 };
        }
        if (0x41 <= codepoint && codepoint <= 0x5a) || (0x61 <= codepoint && codepoint <= 0x7a) {
            return CharType { bits: 0x61 };
        }
        if (0xff21 <= codepoint && codepoint <= 0xff3a) || (0xff41 <= codepoint && codepoint
            <= 0xff5a) {
            return CharType { bits: 0x60 };
        }
        if let Some(special) = Self::get_special_char_type(codepoint) {
            return special;
        }
        if (0x3041 <= codepoint && codepoint <= 0x309c) || codepoint == 0x309f {
            return CharType { bits: 0x22 };
        }
        if (0x30a1 <= codepoint && codepoint <= 0x30fa) || (0x30fd <= codepoint && codepoint
            <= 0x30ff) {
            return CharType { bits: 0x42 };
        }
        if (0xff66 <= codepoint && codepoint <= 0xff6f) || (0xff71 <= codepoint && codepoint
            <= 0xff9f) {
            return CharType { bits: 0x43 };
        }
        CharType { bits: 0x00 }
    }
}

/// HYPHEN-MINUS
pub const HYPHEN_MINUS: char = '\u{002d}';

/// FULLWIDTH HYPHEN-MINUS
pub const FULLWIDTH_HYPHEN_MINUS: char = '\u{ff0d}';

/// KATAKANA-HIRAGANA PROLONGED SOUND MARK
pub const PROLONGED_MARK: char = '\u{30fc}';

/// HALFWIDTH KATAKANA-HIRAGANA PROLONGED SOUND MARK
pub const HALFWIDTH_PROLONGED_MARK: char = '\u{ff70}';

/// Whether `text` is one of the dash-like characters that may stand for a
/// prolonged sound mark: hyphen-minus, hyphen, em dash, horizontal bar,
/// minus sign, full-width hyphen-minus and the two prolonged sound marks.
pub open spec fn spec_is_prolonged_mark(text: Seq<char>) -> bool {
    text.len() == 1 && (text[0] == '\u{002d}' || text[0] == '\u{2010}' || text[0] == '\u{2014}'
        || text[0] == '\u{2015}' || text[0] == '\u{2212}' || text[0] == '\u{ff0d}' || text[0]
        == '\u{ff70}' || text[0] == '\u{30fc}')
}

/// Whether `text` is one of the dash-like characters.
pub fn is_prolonged_mark(text: &str) -> (r: bool)
    ensures
        r == spec_is_prolonged_mark(text@),
{
    match single_char(text) {
        Some(c) => c == '\u{002d}' || c == '\u{2010}' || c == '\u{2014}' || c == '\u{2015}' || c
            == '\u{2212}' || c == '\u{ff0d}' || c == '\u{ff70}' || c == '\u{30fc}',
        None => false,
    }
}

/// Options of the stage.
#[derive(Debug, Default, Clone, Copy, PartialEq, Eq, Structural)]
pub struct ProlongedSoundMarksTransliteratorOptions {
    /// Leave alone the dashes that derive from another record.
    pub skip_already_transliterated_chars: bool,
    /// Take a dash after a hatsuon for a prolonged sound mark.
    pub allow_prolonged_hatsuon: bool,
    /// Take a dash after a sokuon for a prolonged sound mark.
    pub allow_prolonged_sokuon: bool,
    /// Turn the dashes between two alphanumerics into hyphens.
    pub replace_prolonged_marks_following_alnums: bool,
}

/// The flags of the classes after which a dash is a prolonged sound mark.
pub open spec fn spec_prolongables(options: ProlongedSoundMarksTransliteratorOptions) -> u8 {
    let base: u8 = 0x12;
    let with_hatsuon: u8 = if options.allow_prolonged_hatsuon {
        base | HATSUON
    } else {
        base
    };
    if options.allow_prolonged_sokuon {
        with_hatsuon | SOKUON
    } else {
        with_hatsuon
    }
}

/// What the scan knows after a prefix of the input.
pub struct DashScan {
    /// The edits made for the prefix.
    pub edits: Seq<EditView>,
    /// Positions of the dashes held back until the run they make ends.
    pub held: Seq<usize>,
    /// Class of the last record that was no dash.
    pub last: Option<CharType>,
    /// Whether a dash held back after the first derives from another record.
    pub held_derived: bool,
}

/// The edits that release the dashes held back: each becomes `hyphen`, or
/// keeps its text where there is none.
pub open spec fn release(chars: Seq<CharView>, held: Seq<usize>, hyphen: Option<char>) -> Seq<
    EditView,
> {
    Seq::new(
        held.len(),
        |i: int|
            EditView::Put {
                text: match hyphen {
                    Some(h) => seq![h],
                    None => chars[held[i] as int].c,
                },
                origin: held[i],
            },
    )
}

/// Whether `e` is an edit that the stage may make for the record at
/// position `k`: it derives from that record; it keeps a terminator, gives
/// a record that is no dash its own text, and gives a dash a dash.
pub open spec fn settles(chars: Seq<CharView>, e: EditView, k: int) -> bool {
    &&& e.origin() == k
    &&& match e {
        EditView::Keep { .. } => chars[k].is_sentinel(),
        EditView::Put { text, .. } => !chars[k].is_sentinel() && if spec_is_prolonged_mark(
            chars[k].c,
        ) {
            spec_is_prolonged_mark(text)
        } else {
            text == chars[k].c
        },
    }
}

/// The hyphen that a held run between a record of class `before` and one
/// of class `after` turns into: none unless both are alphanumeric; the
/// half-width one where either is half-width, else the full-width one.
pub open spec fn spec_hyphen_between(before: CharType, after: CharType) -> Option<char> {
    if before.spec_is_alnum() && after.spec_is_alnum() {
        if before.spec_is_halfwidth() || after.spec_is_halfwidth() {
            Some(HYPHEN_MINUS)
        } else {
            Some(FULLWIDTH_HYPHEN_MINUS)
        }
    } else {
        None
    }
}

/// The hyphen that a held run between two records turns into.
pub fn hyphen_between(before: CharType, after: CharType) -> (r: Option<char>)
    ensures
        r == spec_hyphen_between(before, after),
{
    if before.is_alnum() && after.is_alnum() {
        if before.is_halfwidth() || after.is_halfwidth() {
            Some(HYPHEN_MINUS)
        } else {
            Some(FULLWIDTH_HYPHEN_MINUS)
        }
    } else {
        None
    }
}

/// The stage that resolves dash-like characters.
#[derive(Debug)]
pub struct ProlongedSoundMarksTransliterator {
    options: ProlongedSoundMarksTransliteratorOptions,
    prolongables: u8,
}

impl View for ProlongedSoundMarksTransliterator {
    type V = ProlongedSoundMarksTransliteratorOptions;

    closed spec fn view(&self) -> ProlongedSoundMarksTransliteratorOptions {
        self.options
    }
}

impl ProlongedSoundMarksTransliterator {
    #[verifier::type_invariant]
    spec fn wf(&self) -> bool {
        self.prolongables == spec_prolongables(self.options)
    }

    /// The stage for `options`.
    pub fn new(options: ProlongedSoundMarksTransliteratorOptions) -> (r: Self)
        ensures
            r@ == options,
    {
        let mut prolongables: u8 = 0x12;
        if options.allow_prolonged_hatsuon {
            prolongables = prolongables | HATSUON;
        }
        if options.allow_prolonged_sokuon {
            prolongables = prolongables | SOKUON;
        }
        Self { options, prolongables }
    }

    /// The scan after one more record, the one at position `k`.
    ///
    /// A terminator, or a record that is no dash, ends a held run: the run
    /// is released, as hyphens where the stage may touch it and it stands
    /// between two alphanumerics, else as it was. A dash joins a held run;
    /// with none held, a dash that the stage may touch becomes a prolonged
    /// sound mark after a class that can be prolonged (half-width after a
    /// half-width one), and starts a held run after an alphanumeric where
    /// the options ask for it. Any other dash keeps its text.
    pub open spec fn step(
        options: ProlongedSoundMarksTransliteratorOptions,
        chars: Seq<CharView>,
        st: DashScan,
        k: int,
    ) -> DashScan {
        let ch = chars[k];
        if ch.is_sentinel() {
            DashScan {
                edits: st.edits + release(chars, st.held, None).push(
                    EditView::Keep { origin: k as usize },
                ),
                held: Seq::<usize>::empty(),
                last: st.last,
                held_derived: false,
            }
        } else if st.held.len() > 0 {
            if spec_is_prolonged_mark(ch.c) {
                DashScan {
                    held: st.held.push(k as usize),
                    held_derived: st.held_derived || ch.source is Some,
                    ..st
                }
            } else {
                let class = CharType::spec_from_codepoint(ch.c[0] as u32);
                let hyphen = if st.last is Some && !(options.skip_already_transliterated_chars
                    && st.held_derived) {
                    spec_hyphen_between(st.last->0, class)
                } else {
                    None
                };
                DashScan {
                    edits: st.edits + release(chars, st.held, hyphen).push(
                        EditView::Put { text: ch.c, origin: k as usize },
                    ),
                    held: Seq::<usize>::empty(),
                    last: Some(class),
                    held_derived: false,
                }
            }
        } else if spec_is_prolonged_mark(ch.c) {
            let may_touch = !options.skip_already_transliterated_chars || ch.source is None;
            if may_touch && st.last is Some && st.last->0.spec_has_any(spec_prolongables(options)) {
                let mark = if st.last->0.spec_is_halfwidth() {
                    HALFWIDTH_PROLONGED_MARK
                } else {
                    PROLONGED_MARK
                };
                DashScan {
                    edits: st.edits.push(EditView::Put { text: seq![mark], origin: k as usize }),
                    ..st
                }
            } else if may_touch && st.last is Some
                && options.replace_prolonged_marks_following_alnums
                && st.last->0.spec_is_alnum() {
                DashScan { held: seq![k as usize], held_derived: false, ..st }
            } else {
                DashScan {
                    edits: st.edits.push(EditView::Put { text: ch.c, origin: k as usize }),
                    ..st
                }
            }
        } else {
            DashScan {
                edits: st.edits.push(EditView::Put { text: ch.c, origin: k as usize }),
                last: Some(CharType::spec_from_codepoint(ch.c[0] as u32)),
                ..st
            }
        }
    }

    /// The scan after the first `n` records of `chars`.
    pub open spec fn scan(
        options: ProlongedSoundMarksTransliteratorOptions,
        chars: Seq<CharView>,
        n: int,
    ) -> DashScan
        decreases n,
    {
        if n <= 0 {
            DashScan {
                edits: Seq::<EditView>::empty(),
                held: Seq::<usize>::empty(),
                last: None,
                held_derived: false,
            }
        } else {
            Self::step(options, chars, Self::scan(options, chars, n - 1), n - 1)
        }
    }

    /// The edits that the stage makes on `chars`. Dashes still held when
    /// the input ends without a terminator are released as they were.
    pub open spec fn spec_edits(
        options: ProlongedSoundMarksTransliteratorOptions,
        chars: Seq<CharView>,
    ) -> Seq<EditView> {
        let st = Self::scan(options, chars, chars.len() as int);
        st.edits + release(chars, st.held, None)
    }

    /// Before the terminator the scan makes nothing but records with
    /// text, and what it holds back are records before the position it has
    /// reached.
    pub proof fn lemma_scan(
        options: ProlongedSoundMarksTransliteratorOptions,
        chars: Seq<CharView>,
        n: int,
    )
        requires
            terminated(chars),
            0 <= n < chars.len() <= usize::MAX,
        ensures
            all_put(Self::scan(options, chars, n).edits),
            edits_in_range(Self::scan(options, chars, n).edits, chars.len()),
            forall|i: int|
                0 <= i < Self::scan(options, chars, n).held.len() ==> (#[trigger] Self::scan(
                    options,
                    chars,
                    n,
                ).held[i]) < n,
        decreases n,
    {
        if n > 0 {
            Self::lemma_scan(options, chars, n - 1);
            let st = Self::scan(options, chars, n - 1);
            let next = Self::scan(options, chars, n);
            assert(next == Self::step(options, chars, st, n - 1));
            assert(!chars[n - 1].is_sentinel());
            Self::lemma_release(chars, st.held, n - 1);
            assert forall|k: int| 0 <= k < next.edits.len() implies ((
            #[trigger] next.edits[k]) matches EditView::Put { text, .. } && text.len() > 0) by {
                if k < st.edits.len() {
                    assert(next.edits[k] == st.edits[k]);
                }
            }
            assert forall|k: int| 0 <= k < next.edits.len() implies (
            #[trigger] next.edits[k]).origin() < chars.len() by {
                if k < st.edits.len() {
                    assert(next.edits[k] == st.edits[k]);
                }
            }
            assert forall|i: int| 0 <= i < next.held.len() implies (#[trigger] next.held[i])
                < n by {
                if i < st.held.len() {
                    assert(next.held[i] == st.held[i]);
                }
            }
        }
    }

    /// Releasing records that have text makes nothing but records with
    /// text.
    pub proof fn lemma_release(chars: Seq<CharView>, held: Seq<usize>, n: int)
        requires
            terminated(chars),
            0 <= n < chars.len(),
            forall|i: int| 0 <= i < held.len() ==> (#[trigger] held[i]) < n,
        ensures
            forall|hyphen: Option<char>| all_put(#[trigger] release(chars, held, hyphen)),
            forall|hyphen: Option<char>|
                edits_in_range(#[trigger] release(chars, held, hyphen), chars.len()),
    {
        assert forall|hyphen: Option<char>| all_put(#[trigger] release(chars, held, hyphen)) by {
            let edits = release(chars, held, hyphen);
            assert forall|k: int| 0 <= k < edits.len() implies ((#[trigger] edits[k]) matches EditView::Put {
                text,
                ..
            } && text.len() > 0) by {
                assert(held[k] < n);
                assert(!chars[held[k] as int].is_sentinel());
            }
        }
        assert forall|hyphen: Option<char>|
            edits_in_range(#[trigger] release(chars, held, hyphen), chars.len()) by {
            let edits = release(chars, held, hyphen);
            assert forall|k: int| 0 <= k < edits.len() implies (#[trigger] edits[k]).origin()
                < chars.len() by {
                assert(held[k] < n);
            }
        }
    }

    /// On a sequence that ends with its only terminator, the edits of the
    /// stage close with the terminator.
    pub proof fn lemma_closes(
        options: ProlongedSoundMarksTransliteratorOptions,
        chars: Seq<CharView>,
    )
        requires
            terminated(chars),
            chars.len() <= usize::MAX,
        ensures
            closes_with_terminator(chars.len(), Self::spec_edits(options, chars)),
            edits_in_range(Self::spec_edits(options, chars), chars.len()),
    {
        let n = chars.len() as int;
        Self::lemma_scan(options, chars, n - 1);
        let st = Self::scan(options, chars, n - 1);
        let last = Self::scan(options, chars, n);
        assert(last == Self::step(options, chars, st, n - 1));
        assert(chars[n - 1].is_sentinel());
        Self::lemma_release(chars, st.held, n - 1);
        let body = st.edits + release(chars, st.held, None);
        assert(all_put(body)) by {
            assert forall|k: int| 0 <= k < body.len() implies ((#[trigger] body[k]) matches EditView::Put {
                text,
                ..
            } && text.len() > 0) by {
                if k < st.edits.len() {
                    assert(body[k] == st.edits[k]);
                } else {
                    assert(body[k] == release(chars, st.held, None)[k - st.edits.len()]);
                }
            }
        }
        lemma_closes(chars.len(), body);
        let keep = EditView::Keep { origin: (n - 1) as usize };
        assert(last.edits =~= body.push(keep));
        assert(release(chars, last.held, None) =~= Seq::<EditView>::empty());
        assert(Self::spec_edits(options, chars) =~= body.push(keep));
        let edits = body.push(keep);
        assert forall|k: int| 0 <= k < edits.len() implies (#[trigger] edits[k]).origin()
            < chars.len() by {
            if k < st.edits.len() {
                assert(edits[k] == st.edits[k]);
            } else if k < body.len() {
                assert(edits[k] == release(chars, st.held, None)[k - st.edits.len()]);
            }
        }
    }

    /// Dashes that stand in a row from position `base` on are released in
    /// place, each as a dash.
    pub proof fn lemma_release_settles(
        chars: Seq<CharView>,
        held: Seq<usize>,
        hyphen: Option<char>,
        base: int,
    )
        requires
            0 <= base,
            base + held.len() <= chars.len() <= usize::MAX,
            forall|i: int|
                0 <= i < held.len() ==> (#[trigger] held[i]) == base + i && spec_is_prolonged_mark(
                    chars[base + i].c,
                ),
            hyphen matches Some(h) ==> h == HYPHEN_MINUS || h == FULLWIDTH_HYPHEN_MINUS,
        ensures
            forall|i: int|
                0 <= i < held.len() ==> settles(
                    chars,
                    #[trigger] release(chars, held, hyphen)[i],
                    base + i,
                ),
    {
        assert forall|i: int| 0 <= i < held.len() implies settles(
            chars,
            #[trigger] release(chars, held, hyphen)[i],
            base + i,
        ) by {
            assert(held[i] == base + i);
            assert(spec_is_prolonged_mark(chars[base + i].c));
        }
    }

    /// The scan goes through the records in order: what it has not put out
    /// it holds back, a row of dashes that ends where the scan stands, and
    /// each edit it has made is one for the record at the edit's own
    /// position.
    pub proof fn lemma_scan_in_place(
        options: ProlongedSoundMarksTransliteratorOptions,
        chars: Seq<CharView>,
        n: int,
    )
        requires
            0 <= n <= chars.len() <= usize::MAX,
        ensures
            Self::scan(options, chars, n).edits.len() + Self::scan(options, chars, n).held.len()
                == n,
            forall|i: int|
                0 <= i < Self::scan(options, chars, n).held.len() ==> (#[trigger] Self::scan(
                    options,
                    chars,
                    n,
                ).held[i]) == Self::scan(options, chars, n).edits.len() + i
                    && spec_is_prolonged_mark(
                    chars[Self::scan(options, chars, n).edits.len() + i].c,
                ),
            forall|k: int|
                0 <= k < Self::scan(options, chars, n).edits.len() ==> settles(
                    chars,
                    #[trigger] Self::scan(options, chars, n).edits[k],
                    k,
                ),
        decreases n,
    {
        if n > 0 {
            Self::lemma_scan_in_place(options, chars, n - 1);
            let st = Self::scan(options, chars, n - 1);
            let next = Self::scan(options, chars, n);
            let ch = chars[n - 1];
            let base = st.edits.len() as int;
            assert(next == Self::step(options, chars, st, n - 1));
            if ch.is_sentinel() || (st.held.len() > 0 && !spec_is_prolonged_mark(ch.c)) {
                let hyphen = if !ch.is_sentinel() && st.last is Some && !(
                options.skip_already_transliterated_chars && st.held_derived) {
                    spec_hyphen_between(
                        st.last->0,
                        CharType::spec_from_codepoint(ch.c[0] as u32),
                    )
                } else {
                    None
                };
                let released = release(chars, st.held, hyphen);
                Self::lemma_release_settles(chars, st.held, hyphen, base);
                assert(next.edits.len() == n);
                assert forall|k: int| 0 <= k < next.edits.len() implies settles(
                    chars,
                    #[trigger] next.edits[k],
                    k,
                ) by {
                    if k < base {
                        assert(next.edits[k] == st.edits[k]);
                    } else if k < n - 1 {
                        assert(next.edits[k] == released[k - base]);
                    }
                }
            } else {
                assert forall|k: int| 0 <= k < next.edits.len() implies settles(
                    chars,
                    #[trigger] next.edits[k],
                    k,
                ) by {
                    if k < base {
                        assert(next.edits[k] == st.edits[k]);
                    }
                }
                assert forall|i: int| 0 <= i < next.held.len() implies (#[trigger] next.held[i])
                    == next.edits.len() + i && spec_is_prolonged_mark(
                    chars[next.edits.len() + i].c,
                ) by {
                    if i < st.held.len() {
                        assert(next.held[i] == st.held[i]);
                    }
                }
            }
        }
    }

    /// The stage makes one edit for each record, in order, and each is one
    /// that [`settles`] allows for its record.
    pub proof fn lemma_edits_in_place(
        options: ProlongedSoundMarksTransliteratorOptions,
        chars: Seq<CharView>,
    )
        requires
            chars.len() <= usize::MAX,
        ensures
            Self::spec_edits(options, chars).len() == chars.len(),
            forall|k: int|
                0 <= k < chars.len() ==> settles(
                    chars,
                    #[trigger] Self::spec_edits(options, chars)[k],
                    k,
                ),
    {
        let n = chars.len() as int;
        Self::lemma_scan_in_place(options, chars, n);
        let st = Self::scan(options, chars, n);
        let base = st.edits.len() as int;
        let edits = Self::spec_edits(options, chars);
        Self::lemma_release_settles(chars, st.held, None, base);
        assert forall|k: int| 0 <= k < chars.len() implies settles(chars, #[trigger] edits[k], k) by {
            if k < base {
                assert(edits[k] == st.edits[k]);
            } else {
                assert(edits[k] == release(chars, st.held, None)[k - base]);
            }
        }
    }

    /// Nothing but dashes changes: where the stage succeeds it puts out
    /// one record for each record of the input, in order. A record that is
    /// none of the dash-like characters keeps its text, the terminator
    /// among them, and a dash gives way to a dash.
    pub proof fn lemma_only_dashes_change(
        self,
        pool: Seq<CharView>,
        input: Seq<usize>,
        after: Seq<CharView>,
        out: Seq<usize>,
    )
        requires
            origins_precede(pool),
            valid_seq(pool, input),
            input.len() <= usize::MAX,
            after.len() <= usize::MAX,
            self.spec_transliterate(pool, input) == Ok::<Outcome, Seq<char>>(
                Outcome { pool: after, out },
            ),
        ensures
            out.len() == input.len(),
            forall|k: int|
                0 <= k < input.len() && !spec_is_prolonged_mark(read(pool, input)[k].c) ==> (
                #[trigger] read(after, out)[k]).c == read(pool, input)[k].c,
            forall|k: int|
                0 <= k < input.len() && spec_is_prolonged_mark(read(pool, input)[k].c)
                    ==> spec_is_prolonged_mark((#[trigger] read(after, out)[k]).c),
    {
        let chars = read(pool, input);
        let edits = Self::spec_edits(self@, chars);
        Self::lemma_edits_in_place(self@, chars);
        assert(edits_in_range(edits, input.len())) by {
            assert forall|k: int| 0 <= k < edits.len() implies (#[trigger] edits[k]).origin()
                < input.len() by {
                assert(settles(chars, edits[k], k));
            }
        }
        lemma_outcome_texts(pool, input, edits, after, out);
        assert forall|k: int| 0 <= k < input.len() implies if spec_is_prolonged_mark(chars[k].c) {
            spec_is_prolonged_mark((#[trigger] read(after, out)[k]).c)
        } else {
            read(after, out)[k].c == chars[k].c
        } by {
            assert(settles(chars, edits[k], k));
            assert(read(after, out)[k].c == edit_text(pool, input, edits[k]));
        }
    }

    /// Computes the edits of the stage for `input`.
    pub fn edits(&self, pool: &CharPool, input: &Vec<usize>) -> (r: Vec<Edit>)
        requires
            valid_seq(pool@, input@),
        ensures
            edit_views(r@) == Self::spec_edits(self@, read(pool@, input@)),
            edits_in_range(edit_views(r@), input@.len()),
    {
        proof {
            use_type_invariant(self);
        }
        let ghost chars = read(pool@, input@);
        let mut edits: Vec<Edit> = Vec::new();
        let mut held: Vec<usize> = Vec::new();
        let mut last: Option<CharType> = None;
        let mut held_derived = false;
        let mut k: usize = 0;
        proof {
            assert(edit_views(edits@) =~= Seq::<EditView>::empty());
        }
        while k < input.len()
            invariant
                k <= input.len(),
                valid_seq(pool@, input@),
                chars == read(pool@, input@),
                self.wf(),
                Self::scan(self.options, chars, k as int) == (DashScan {
                    edits: edit_views(edits@),
                    held: held@,
                    last,
                    held_derived,
                }),
                edits_in_range(edit_views(edits@), input@.len()),
                forall|i: int| 0 <= i < held@.len() ==> (#[trigger] held@[i]) < k,
            decreases input.len() - k,
        {
            let ghost st = Self::scan(self.options, chars, k as int);
            let ghost before = edit_views(edits@);
            let rec = pool.get(input[k]);
            assert(rec@ == chars[k as int]);
            assert(Self::scan(self.options, chars, k + 1) == Self::step(
                self.options,
                chars,
                st,
                k as int,
            ));
            match first_char(rec.c.as_str()) {
                None => {
                    release_held(&mut edits, pool, input, &held, None);
                    let ghost mid = edit_views(edits@);
                    edits.push(Edit::Keep { origin: k });
                    held = Vec::new();
                    held_derived = false;
                    proof {
                        let e = EditView::Keep { origin: k };
                        assert(edit_views(edits@) =~= mid.push(e));
                        assert(mid.push(e) =~= before + release(chars, st.held, None).push(e));
                    }
                },
                Some(c) => {
                    let is_mark = is_prolonged_mark(rec.c.as_str());
                    if held.len() > 0 {
                        if is_mark {
                            held.push(k);
                            if rec.source.is_some() {
                                held_derived = true;
                            }
                        } else {
                            let class = CharType::from_codepoint(c as u32);
                            let hyphen = match last {
                                Some(l) => {
                                    if !(self.options.skip_already_transliterated_chars
                                        && held_derived) {
                                        hyphen_between(l, class)
                                    } else {
                                        None
                                    }
                                },
                                None => None,
                            };
                            release_held(&mut edits, pool, input, &held, hyphen);
                            let ghost mid = edit_views(edits@);
                            edits.push(Edit::Put { text: rec.c.clone(), origin: k });
                            held = Vec::new();
                            held_derived = false;
                            last = Some(class);
                            proof {
                                let e = EditView::Put { text: rec.c@, origin: k };
                                assert(edit_views(edits@) =~= mid.push(e));
                                assert(mid.push(e) =~= before + release(
                                    chars,
                                    st.held,
                                    hyphen,
                                ).push(e));
                            }
                        }
                    } else if is_mark {
                        let may_touch = !self.options.skip_already_transliterated_chars
                            || rec.source.is_none();
                        let mut done = false;
                        if may_touch {
                            if let Some(l) = last {
                                if l.has_any(self.prolongables) {
                                    let mark = if l.is_halfwidth() {
                                        HALFWIDTH_PROLONGED_MARK
                                    } else {
                                        PROLONGED_MARK
                                    };
                                    edits.push(
                                        Edit::Put { text: string_from_char(mark), origin: k },
                                    );
                                    done = true;
                                    proof {
                                        assert(edit_views(edits@) =~= before.push(
                                            EditView::Put { text: seq![mark], origin: k },
                                        ));
                                    }
                                } else if self.options.replace_prolonged_marks_following_alnums
                                    && l.is_alnum() {
                                    held.push(k);
                                    held_derived = false;
                                    done = true;
                                    proof {
                                        assert(held@ =~= seq![k]);
                                    }
                                }
                            }
                        }
                        if !done {
                            edits.push(Edit::Put { text: rec.c.clone(), origin: k });
                            proof {
                                assert(edit_views(edits@) =~= before.push(
                                    EditView::Put { text: rec.c@, origin: k },
                                ));
                            }
                        }
                    } else {
                        edits.push(Edit::Put { text: rec.c.clone(), origin: k });
                        last = Some(CharType::from_codepoint(c as u32));
                        proof {
                            assert(edit_views(edits@) =~= before.push(
                                EditView::Put { text: rec.c@, origin: k },
                            ));
                        }
                    }
                },
            }
            k += 1;
        }
        release_held(&mut edits, pool, input, &held, None);
        edits
    }
}

/// Appends to `edits` the edits that release the dashes held back.
fn release_held(
    edits: &mut Vec<Edit>,
    pool: &CharPool,
    input: &Vec<usize>,
    held: &Vec<usize>,
    hyphen: Option<char>,
)
    requires
        valid_seq(pool@, input@),
        forall|i: int| 0 <= i < held@.len() ==> (#[trigger] held@[i]) < input@.len(),
        edits_in_range(edit_views(old(edits)@), input@.len()),
    ensures
        edit_views(final(edits)@) == edit_views(old(edits)@) + release(
            read(pool@, input@),
            held@,
            hyphen,
        ),
        edits_in_range(edit_views(final(edits)@), input@.len()),
{
    let ghost chars = read(pool@, input@);
    let ghost before = edit_views(edits@);
    let ghost all = release(chars, held@, hyphen);
    let mut i: usize = 0;
    proof {
        assert(before + all.take(0) =~= before);
    }
    while i < held.len()
        invariant
            i <= held.len(),
            valid_seq(pool@, input@),
            chars == read(pool@, input@),
            all == release(chars, held@, hyphen),
            forall|j: int| 0 <= j < held@.len() ==> (#[trigger] held@[j]) < input@.len(),
            edit_views(edits@) == before + all.take(i as int),
            edits_in_range(edit_views(edits@), input@.len()),
        decreases held.len() - i,
    {
        let ghost sofar = edit_views(edits@);
        let origin = held[i];
        let text = match hyphen {
            Some(h) => string_from_char(h),
            None => pool.get(input[origin]).c.clone(),
        };
        edits.push(Edit::Put { text, origin });
        proof {
            assert(chars[origin as int] == pool@[input@[origin as int] as int]);
            assert(edit_views(edits@) =~= sofar.push(all[i as int]));
            assert(before + all.take(i + 1) =~= (before + all.take(i as int)).push(all[i as int]));
        }
        i += 1;
    }
    proof {
        assert(all.take(i as int) =~= all);
    }
}

impl Transliterator for ProlongedSoundMarksTransliterator {
    open spec fn spec_transliterate(&self, pool: Seq<CharView>, input: Seq<usize>) -> Result<Outcome, Seq<char>> {
        rewrite(pool, input, Self::spec_edits(self@, read(pool, input)))
    }

    open spec fn keeps_terminator(&self) -> bool {
        true
    }

    /// Resolves the dash-like characters. Nothing else changes: the
    /// output has one record for each record of the input, a record that
    /// is none of the dash-like characters keeps its text, and a dash gives
    /// way to a dash.
    fn transliterate(&self, pool: &mut CharPool, input: &Vec<usize>) -> (r: Result<
        Vec<usize>,
        TransliterationError,
    >)
        ensures
            r matches Ok(out) ==> out@.len() == input@.len(),
            r matches Ok(out) ==> forall|k: int|
                0 <= k < input@.len() && !spec_is_prolonged_mark(read(old(pool)@, input@)[k].c)
                    ==> (#[trigger] read(final(pool)@, out@)[k]).c == read(
                    old(pool)@,
                    input@,
                )[k].c,
            r matches Ok(out) ==> forall|k: int|
                0 <= k < input@.len() && spec_is_prolonged_mark(read(old(pool)@, input@)[k].c)
                    ==> spec_is_prolonged_mark((#[trigger] read(final(pool)@, out@)[k]).c),
    {
        // Reading the length tells the proof that it fits a `usize`.
        let n = input.len();
        let edits = self.edits(pool, input);
        let r = apply(pool, input, edits);
        proof {
            if r is Ok {
                self.lemma_only_dashes_change(old(pool)@, input@, pool@, r->Ok_0@);
            }
            if r is Ok && self.keeps_terminator() && terminated(read(old(pool)@, input@)) {
                Self::lemma_closes(self@, read(old(pool)@, input@));
                lemma_outcome_terminated(
                    old(pool)@,
                    input@,
                    Self::spec_edits(self@, read(old(pool)@, input@)),
                    pool@,
                    r->Ok_0@,
                );
            }
        }
        r
    }
}

impl TransliteratorFactory for ProlongedSoundMarksTransliteratorOptions {
    type Output = ProlongedSoundMarksTransliterator;

    open spec fn makes(&self, stage: ProlongedSoundMarksTransliterator) -> bool {
        stage@ == *self
    }

    fn new_transliterator(&self) -> (r: Result<
        ProlongedSoundMarksTransliterator,
        TransliteratorFactoryError,
    >) {
        Ok(ProlongedSoundMarksTransliterator::new(*self))
    }
}

} // verus!
