//! Composition of a kana and the sound mark that follows it.

use vstd::prelude::*;
use vstd::string::*;
use std::collections::HashMap;
use crate::chars::{read, terminated, valid_seq, CharPool, CharView};
use crate::text::{single_char, string_from_char};
use crate::transliterator::{
    all_put, apply, closes_with_terminator, edit_views, edits_in_range, lemma_closes,
    lemma_outcome_terminated, rewrite, Edit, EditView, Outcome, TransliterationError,
    Transliterator, TransliteratorFactory, TransliteratorFactoryError,
};
use crate::transliterators::kana_table::{
    generate_semi_voiced_characters, generate_voiced_characters, index_pairs, lemma_pairs_map,
    lookup, pairs_map, spec_semi_voiced_characters, spec_voiced_characters,
};

verus! {

/// Options of the stage.
#[derive(Debug, Clone, Copy, PartialEq, Eq, Structural)]
pub struct HiraKataCompositionTransliteratorOptions {
    /// Compose with the spacing marks U+309B and U+309C too.
    pub compose_non_combining_marks: bool,
}

impl Default for HiraKataCompositionTransliteratorOptions {
    fn default() -> (r: Self)
        ensures
            !r.compose_non_combining_marks,
    {
        HiraKataCompositionTransliteratorOptions { compose_non_combining_marks: false }
    }
}

/// The kind of a sound mark.
#[derive(Debug, Clone, Copy, PartialEq, Eq, Structural)]
pub enum SoundMark {
    Voiced,
    SemiVoiced,
}

/// The kind of sound mark that `text` is, if it is one that the options
/// take for such: the combining marks U+3099 and U+309A, and the spacing
/// marks U+309B and U+309C where the options ask for them.
pub open spec fn spec_sound_mark(
    options: HiraKataCompositionTransliteratorOptions,
    text: Seq<char>,
) -> Option<SoundMark> {
    if text.len() != 1 {
        None
    } else if text[0] == '\u{3099}' || (options.compose_non_combining_marks && text[0]
        == '\u{309b}') {
        Some(SoundMark::Voiced)
    } else if text[0] == '\u{309a}' || (options.compose_non_combining_marks && text[0]
        == '\u{309c}') {
        Some(SoundMark::SemiVoiced)
    } else {
        None
    }
}

/// The character that `base` and a sound mark of kind `mark` compose
/// into.
pub open spec fn spec_composed(base: Seq<char>, mark: SoundMark) -> Option<char> {
    if base.len() != 1 {
        None
    } else {
        match mark {
            SoundMark::Voiced => lookup(spec_voiced_characters(), base[0]),
            SoundMark::SemiVoiced => lookup(spec_semi_voiced_characters(), base[0]),
        }
    }
}

/// What the scan knows after a prefix of the input.
pub struct ComposeScan {
    /// The edits made for the prefix.
    pub edits: Seq<EditView>,
    /// Position of the record held back to see what follows it.
    pub pending: Option<usize>,
}

/// The scan after one more record, the one at position `k`.
///
/// A record held back composes with a sound mark that follows it, where
/// the two have a composed form, and both give way to it; else it goes out
/// as it is. The record at `k`, unless it went into a composed form, is
/// kept if it is a terminator and held back if not.
pub open spec fn compose_step(
    options: HiraKataCompositionTransliteratorOptions,
    chars: Seq<CharView>,
    st: ComposeScan,
    k: int,
) -> ComposeScan {
    let ch = chars[k];
    let mark = spec_sound_mark(options, ch.c);
    if st.pending is Some && mark is Some && spec_composed(
        chars[st.pending->0 as int].c,
        mark->0,
    ) is Some {
        ComposeScan {
            edits: st.edits.push(
                EditView::Put {
                    text: seq![spec_composed(chars[st.pending->0 as int].c, mark->0)->0],
                    origin: st.pending->0,
                },
            ),
            pending: None,
        }
    } else {
        let flushed = match st.pending {
            Some(p) => st.edits.push(EditView::Put { text: chars[p as int].c, origin: p }),
            None => st.edits,
        };
        if ch.is_sentinel() {
            ComposeScan {
                edits: flushed.push(EditView::Keep { origin: k as usize }),
                pending: None,
            }
        } else {
            ComposeScan { edits: flushed, pending: Some(k as usize) }
        }
    }
}

/// The scan after the first `n` records of `chars`.
pub open spec fn compose_scan(
    options: HiraKataCompositionTransliteratorOptions,
    chars: Seq<CharView>,
    n: int,
) -> ComposeScan
    decreases n,
{
    if n <= 0 {
        ComposeScan { edits: Seq::<EditView>::empty(), pending: None }
    } else {
        compose_step(options, chars, compose_scan(options, chars, n - 1), n - 1)
    }
}

/// The edits that the stage makes on `chars`. A record still held back
/// when the input ends goes out as it is.
pub open spec fn composition_edits(
    options: HiraKataCompositionTransliteratorOptions,
    chars: Seq<CharView>,
) -> Seq<EditView> {
    let st = compose_scan(options, chars, chars.len() as int);
    match st.pending {
        Some(p) => st.edits.push(EditView::Put { text: chars[p as int].c, origin: p }),
        None => st.edits,
    }
}

/// Before the terminator the scan makes nothing but records with text,
/// and what it holds back is a record before the position it has reached.
pub proof fn lemma_compose_scan(
    options: HiraKataCompositionTransliteratorOptions,
    chars: Seq<CharView>,
    n: int,
)
    requires
        terminated(chars),
        0 <= n < chars.len() <= usize::MAX,
    ensures
        all_put(compose_scan(options, chars, n).edits),
        edits_in_range(compose_scan(options, chars, n).edits, chars.len()),
        compose_scan(options, chars, n).pending matches Some(p) ==> p < n,
    decreases n,
{
    if n > 0 {
        lemma_compose_scan(options, chars, n - 1);
        let st = compose_scan(options, chars, n - 1);
        let next = compose_scan(options, chars, n);
        assert(next == compose_step(options, chars, st, n - 1));
        assert(!chars[n - 1].is_sentinel());
        if st.pending is Some {
            assert(!chars[st.pending->0 as int].is_sentinel());
        }
        assert forall|k: int| 0 <= k < next.edits.len() implies ((#[trigger] next.edits[k]) matches EditView::Put {
            text,
            ..
        } && text.len() > 0) by {
            if k < st.edits.len() {
                assert(next.edits[k] == st.edits[k]);
            }
        }
        assert forall|k: int| 0 <= k < next.edits.len() implies (#[trigger] next.edits[k]).origin()
            < chars.len() by {
            if k < st.edits.len() {
                assert(next.edits[k] == st.edits[k]);
            }
        }
    }
}

/// On a sequence that ends with its only terminator, the edits of the
/// stage close with the terminator.
pub proof fn lemma_composition_closes(
    options: HiraKataCompositionTransliteratorOptions,
    chars: Seq<CharView>,
)
    requires
        terminated(chars),
        chars.len() <= usize::MAX,
    ensures
        closes_with_terminator(chars.len(), composition_edits(options, chars)),
        edits_in_range(composition_edits(options, chars), chars.len()),
{
    let n = chars.len() as int;
    lemma_compose_scan(options, chars, n - 1);
    let st = compose_scan(options, chars, n - 1);
    assert(compose_scan(options, chars, n) == compose_step(options, chars, st, n - 1));
    assert(chars[n - 1].is_sentinel());
    assert(spec_sound_mark(options, chars[n - 1].c) is None);
    let flushed = match st.pending {
        Some(p) => st.edits.push(EditView::Put { text: chars[p as int].c, origin: p }),
        None => st.edits,
    };
    if st.pending is Some {
        assert(!chars[st.pending->0 as int].is_sentinel());
    }
    assert(all_put(flushed)) by {
        assert forall|k: int| 0 <= k < flushed.len() implies ((#[trigger] flushed[k]) matches EditView::Put {
            text,
            ..
        } && text.len() > 0) by {
            if k < st.edits.len() {
                assert(flushed[k] == st.edits[k]);
            }
        }
    }
    lemma_closes(chars.len(), flushed);
    let edits = composition_edits(options, chars);
    assert forall|k: int| 0 <= k < edits.len() implies (#[trigger] edits[k]).origin()
        < chars.len() by {
        if k < st.edits.len() {
            assert(edits[k] == st.edits[k]);
        }
    }
}

/// The stage that composes kana and sound marks.
#[derive(Debug)]
pub struct HiraKataCompositionTransliterator {
    options: HiraKataCompositionTransliteratorOptions,
    voiced: HashMap<u32, char>,
    semi_voiced: HashMap<u32, char>,
}

impl View for HiraKataCompositionTransliterator {
    type V = HiraKataCompositionTransliteratorOptions;

    closed spec fn view(&self) -> HiraKataCompositionTransliteratorOptions {
        self.options
    }
}

impl HiraKataCompositionTransliterator {
    #[verifier::type_invariant]
    spec fn wf(&self) -> bool {
        &&& self.voiced@ == pairs_map(spec_voiced_characters())
        &&& self.semi_voiced@ == pairs_map(spec_semi_voiced_characters())
    }

    /// The stage for `options`, with the tables of composed forms.
    pub fn new(options: HiraKataCompositionTransliteratorOptions) -> (r: Self)
        ensures
            r@ == options,
    {
        let (voiced, semi_voiced) = Self::build_table();
        Self { options, voiced, semi_voiced }
    }

    /// The tables of voiced and of semi-voiced forms.
    pub fn build_table() -> (r: (HashMap<u32, char>, HashMap<u32, char>))
        ensures
            r.0@ == pairs_map(spec_voiced_characters()),
            r.1@ == pairs_map(spec_semi_voiced_characters()),
    {
        let voiced = generate_voiced_characters();
        let semi_voiced = generate_semi_voiced_characters();
        (index_pairs(&voiced), index_pairs(&semi_voiced))
    }

    fn sound_mark(&self, text: &str) -> (r: Option<SoundMark>)
        ensures
            r == spec_sound_mark(self.options, text@),
    {
        match single_char(text) {
            Some(c) => {
                if c == '\u{3099}' || (self.options.compose_non_combining_marks && c
                    == '\u{309b}') {
                    Some(SoundMark::Voiced)
                } else if c == '\u{309a}' || (self.options.compose_non_combining_marks && c
                    == '\u{309c}') {
                    Some(SoundMark::SemiVoiced)
                } else {
                    None
                }
            },
            None => None,
        }
    }

    fn composed(&self, base: &str, mark: SoundMark) -> (r: Option<char>)
        requires
            self.wf(),
        ensures
            r == spec_composed(base@, mark),
    {
        match single_char(base) {
            Some(c) => {
                proof {
                    lemma_pairs_map(spec_voiced_characters(), c);
                    lemma_pairs_map(spec_semi_voiced_characters(), c);
                }
                let found = match mark {
                    SoundMark::Voiced => self.voiced.get(&(c as u32)),
                    SoundMark::SemiVoiced => self.semi_voiced.get(&(c as u32)),
                };
                match found {
                    Some(v) => Some(*v),
                    None => None,
                }
            },
            None => None,
        }
    }

    /// Computes the edits of the stage for `input`.
    pub fn edits(&self, pool: &CharPool, input: &Vec<usize>) -> (r: Vec<Edit>)
        requires
            valid_seq(pool@, input@),
        ensures
            edit_views(r@) == composition_edits(self@, read(pool@, input@)),
            edits_in_range(edit_views(r@), input@.len()),
    {
        proof {
            use_type_invariant(self);
        }
        let ghost chars = read(pool@, input@);
        let mut edits: Vec<Edit> = Vec::new();
        let mut pending: Option<usize> = None;
        let mut k: usize = 0;
        assert(edit_views(edits@) =~= Seq::<EditView>::empty());
        while k < input.len()
            invariant
                k <= input.len(),
                self.wf(),
                valid_seq(pool@, input@),
                chars == read(pool@, input@),
                compose_scan(self.options, chars, k as int) == (ComposeScan {
                    edits: edit_views(edits@),
                    pending,
                }),
                edits_in_range(edit_views(edits@), input@.len()),
                pending matches Some(p) ==> p < k,
            decreases input.len() - k,
        {
            let ghost st = compose_scan(self.options, chars, k as int);
            let ghost before = edit_views(edits@);
            let rec = pool.get(input[k]);
            assert(rec@ == chars[k as int]);
            assert(compose_scan(self.options, chars, k + 1) == compose_step(
                self.options,
                chars,
                st,
                k as int,
            ));
            let mark = self.sound_mark(rec.c.as_str());
            let mut joined = false;
            if let Some(p) = pending {
                let held = pool.get(input[p]);
                assert(held@ == chars[p as int]);
                let composed = match mark {
                    Some(m) => self.composed(held.c.as_str(), m),
                    None => None,
                };
                match composed {
                    Some(c) => {
                        edits.push(Edit::Put { text: string_from_char(c), origin: p });
                        joined = true;
                        proof {
                            assert(edit_views(edits@) =~= before.push(
                                EditView::Put { text: seq![c], origin: p },
                            ));
                        }
                    },
                    None => {
                        edits.push(Edit::Put { text: held.c.clone(), origin: p });
                        proof {
                            assert(edit_views(edits@) =~= before.push(
                                EditView::Put { text: held.c@, origin: p },
                            ));
                        }
                    },
                }
                pending = None;
            }
            if !joined {
                let ghost flushed = edit_views(edits@);
                if rec.is_sentinel() {
                    edits.push(Edit::Keep { origin: k });
                    proof {
                        assert(edit_views(edits@) =~= flushed.push(EditView::Keep { origin: k }));
                    }
                } else {
                    pending = Some(k);
                }
            }
            k += 1;
        }
        if let Some(p) = pending {
            let ghost before = edit_views(edits@);
            let held = pool.get(input[p]);
            assert(held@ == chars[p as int]);
            edits.push(Edit::Put { text: held.c.clone(), origin: p });
            proof {
                assert(edit_views(edits@) =~= before.push(
                    EditView::Put { text: held.c@, origin: p },
                ));
            }
        }
        edits
    }
}

impl Transliterator for HiraKataCompositionTransliterator {
    open spec fn spec_transliterate(&self, pool: Seq<CharView>, input: Seq<usize>) -> Result<Outcome, Seq<char>> {
        rewrite(pool, input, composition_edits(self@, read(pool, input)))
    }

    open spec fn keeps_terminator(&self) -> bool {
        true
    }

    fn transliterate(&self, pool: &mut CharPool, input: &Vec<usize>) -> (r: Result<
        Vec<usize>,
        TransliterationError,
    >) {
        // Reading the length tells the proof that it fits a `usize`.
        let n = input.len();
        let edits = self.edits(pool, input);
        let r = apply(pool, input, edits);
        proof {
            if r is Ok && self.keeps_terminator() && terminated(read(old(pool)@, input@)) {
                lemma_composition_closes(self@, read(old(pool)@, input@));
                lemma_outcome_terminated(
                    old(pool)@,
                    input@,
                    composition_edits(self@, read(old(pool)@, input@)),
                    pool@,
                    r->Ok_0@,
                );
            }
        }
        r
    }
}

impl TransliteratorFactory for HiraKataCompositionTransliteratorOptions {
    type Output = HiraKataCompositionTransliterator;

    open spec fn makes(&self, stage: HiraKataCompositionTransliterator) -> bool {
        stage@ == *self
    }

    fn new_transliterator(&self) -> (r: Result<
        HiraKataCompositionTransliterator,
        TransliteratorFactoryError,
    >) {
        Ok(HiraKataCompositionTransliterator::new(*self))
    }
}

} // verus!
