//! Replacement of hyphens and dashes by the form that a chosen standard
//! has for them.

use vstd::prelude::*;
use vstd::string::*;
use crate::chars::{read, terminated, valid_seq, CharPool, CharView};
use crate::dataset::{entry_keys, find_entry, find_key, lemma_find_key, HyphensRecord};
use crate::transliterator::{
    apply, edit_views, edits_in_range, lemma_map_outcome_terminated, map_edits, rewrite, Edit,
    EditView, Outcome, TransliterationError, Transliterator,
};
use crate::transliterators::ivs_svs_base::option_view;

verus! {

/// A standard that says what a hyphen turns into.
#[derive(Debug, Clone, Copy, PartialEq, Eq, Structural)]
pub enum HyphensTransliterationVariant {
    Ascii,
    Jisx0201,
    Jisx0208_90,
    Jisx0208_90Windows,
    Jisx0208Verbatim,
}

/// Options of the stage.
#[derive(Debug, Clone, PartialEq)]
pub struct HyphensTransliteratorOptions {
    /// The standards to consult, the first that knows the character wins.
    pub precedence: Vec<HyphensTransliterationVariant>,
}

/// What `record` has for standard `variant`.
pub open spec fn variant_text(record: HyphensRecord, variant: HyphensTransliterationVariant) -> Option<
    Seq<char>,
> {
    match variant {
        HyphensTransliterationVariant::Ascii => option_view(record.ascii),
        HyphensTransliterationVariant::Jisx0201 => option_view(record.jisx0201),
        HyphensTransliterationVariant::Jisx0208_90 => option_view(record.jisx0208_90),
        HyphensTransliterationVariant::Jisx0208_90Windows => option_view(
            record.jisx0208_90_windows,
        ),
        HyphensTransliterationVariant::Jisx0208Verbatim => option_view(record.jisx0208_verbatim),
    }
}

/// What the entries have for `key` in standard `variant`.
pub open spec fn spec_variant_getter(
    entries: Seq<(String, HyphensRecord)>,
    variant: HyphensTransliterationVariant,
    key: Seq<char>,
) -> Option<Seq<char>> {
    match find_key(entry_keys(entries), key, entries.len() as int) {
        Some(i) => variant_text(entries[i].1, variant),
        None => None,
    }
}

/// What the first of the standards from position `from` on that knows
/// `key` has for it.
pub open spec fn first_variant(
    entries: Seq<(String, HyphensRecord)>,
    precedence: Seq<HyphensTransliterationVariant>,
    key: Seq<char>,
    from: int,
) -> Option<Seq<char>>
    decreases precedence.len() - from,
{
    if from < 0 || from >= precedence.len() {
        None
    } else if spec_variant_getter(entries, precedence[from], key) is Some {
        spec_variant_getter(entries, precedence[from], key)
    } else {
        first_variant(entries, precedence, key, from + 1)
    }
}

/// No entry has an empty text for any standard.
pub open spec fn values_have_text(entries: Seq<(String, HyphensRecord)>) -> bool {
    forall|i: int, v: HyphensTransliterationVariant|
        0 <= i < entries.len() ==> (#[trigger] variant_text(entries[i].1, v) matches Some(t)
            ==> t.len() > 0)
}

/// Where no entry has an empty text, what the standards have for a key
/// is not empty.
pub proof fn lemma_first_variant(
    entries: Seq<(String, HyphensRecord)>,
    precedence: Seq<HyphensTransliterationVariant>,
    key: Seq<char>,
    from: int,
)
    requires
        values_have_text(entries),
    ensures
        first_variant(entries, precedence, key, from) matches Some(t) ==> t.len() > 0,
    decreases precedence.len() - from,
{
    if 0 <= from < precedence.len() {
        lemma_find_key(entry_keys(entries), key, entries.len() as int);
        match find_key(entry_keys(entries), key, entries.len() as int) {
            Some(i) => {
                assert(variant_text(entries[i].1, precedence[from]) matches Some(t) ==> t.len()
                    > 0);
            },
            None => {},
        }
        lemma_first_variant(entries, precedence, key, from + 1);
    }
}

/// The text that takes the place of `text`.
pub open spec fn replaced(
    entries: Seq<(String, HyphensRecord)>,
    precedence: Seq<HyphensTransliterationVariant>,
    text: Seq<char>,
) -> Seq<char> {
    match first_variant(entries, precedence, text, 0) {
        Some(t) => t,
        None => text,
    }
}

/// The edits that the stage makes on `chars`.
pub open spec fn hyphen_edits(
    entries: Seq<(String, HyphensRecord)>,
    precedence: Seq<HyphensTransliterationVariant>,
    chars: Seq<CharView>,
) -> Seq<EditView> {
    map_edits(chars, |ch: CharView| replaced(entries, precedence, ch.c))
}

/// The entries of the data set for hyphens.
pub struct HyphensMappings<'d>(pub &'d Vec<(String, HyphensRecord)>);

impl<'d> HyphensMappings<'d> {
    /// The record for `key`.
    pub fn get(&self, key: &String) -> (r: Option<&'d HyphensRecord>)
        ensures
            match r {
                Some(record) => find_key(entry_keys(self.0@), key@, self.0@.len() as int) is Some
                    && *record == self.0@[find_key(
                    entry_keys(self.0@),
                    key@,
                    self.0@.len() as int,
                )->0].1,
                None => find_key(entry_keys(self.0@), key@, self.0@.len() as int) is None,
            },
    {
        match find_entry(self.0, key) {
            Some(i) => Some(&self.0[i].1),
            None => None,
        }
    }

    /// What the entries have for `key` in standard `variant`.
    pub fn variant_getter(&self, variant: HyphensTransliterationVariant, key: &String) -> (r: Option<
        String,
    >)
        ensures
            option_view(r) == spec_variant_getter(self.0@, variant, key@),
    {
        match self.get(key) {
            Some(record) => {
                let value = match variant {
                    HyphensTransliterationVariant::Ascii => &record.ascii,
                    HyphensTransliterationVariant::Jisx0201 => &record.jisx0201,
                    HyphensTransliterationVariant::Jisx0208_90 => &record.jisx0208_90,
                    HyphensTransliterationVariant::Jisx0208_90Windows => &record.jisx0208_90_windows,
                    HyphensTransliterationVariant::Jisx0208Verbatim => &record.jisx0208_verbatim,
                };
                match value {
                    Some(s) => Some(s.clone()),
                    None => None,
                }
            },
            None => None,
        }
    }
}

/// The stage that replaces hyphens.
pub struct HyphensTransliterator<'d> {
    pub mappings: HyphensMappings<'d>,
    pub precedence: Vec<HyphensTransliterationVariant>,
}

impl<'d> HyphensTransliterator<'d> {
    /// The stage that consults the standards of `precedence` in order,
    /// working from `entries`.
    pub fn new(
        precedence: Vec<HyphensTransliterationVariant>,
        entries: &'d Vec<(String, HyphensRecord)>,
    ) -> (r: Self)
        ensures
            r.precedence@ == precedence@,
            r.mappings.0 == entries,
    {
        Self { mappings: HyphensMappings(entries), precedence }
    }

    fn replace(&self, text: &String) -> (r: String)
        ensures
            r@ == replaced(self.mappings.0@, self.precedence@, text@),
    {
        let mut i: usize = 0;
        while i < self.precedence.len()
            invariant
                i <= self.precedence.len(),
                first_variant(self.mappings.0@, self.precedence@, text@, 0) == first_variant(
                    self.mappings.0@,
                    self.precedence@,
                    text@,
                    i as int,
                ),
            decreases self.precedence.len() - i,
        {
            match self.mappings.variant_getter(self.precedence[i], text) {
                Some(t) => {
                    return t;
                },
                None => {},
            }
            i += 1;
        }
        text.clone()
    }

    /// Computes the edits of the stage for `input`.
    pub fn edits(&self, pool: &CharPool, input: &Vec<usize>) -> (r: Vec<Edit>)
        requires
            valid_seq(pool@, input@),
        ensures
            edit_views(r@) == hyphen_edits(self.mappings.0@, self.precedence@, read(pool@, input@)),
            edits_in_range(edit_views(r@), input@.len()),
    {
        let ghost chars = read(pool@, input@);
        let ghost all = hyphen_edits(self.mappings.0@, self.precedence@, chars);
        let mut edits: Vec<Edit> = Vec::new();
        let mut k: usize = 0;
        assert(edit_views(edits@) =~= all.take(0));
        while k < input.len()
            invariant
                k <= input.len(),
                valid_seq(pool@, input@),
                chars == read(pool@, input@),
                all == hyphen_edits(self.mappings.0@, self.precedence@, chars),
                edit_views(edits@) == all.take(k as int),
                edits_in_range(edit_views(edits@), input@.len()),
            decreases input.len() - k,
        {
            let ghost before = edit_views(edits@);
            let rec = pool.get(input[k]);
            assert(rec@ == chars[k as int]);
            if rec.is_sentinel() {
                edits.push(Edit::Keep { origin: k });
            } else {
                edits.push(Edit::Put { text: self.replace(&rec.c), origin: k });
            }
            proof {
                assert(edit_views(edits@) =~= before.push(all[k as int]));
                assert(all.take(k + 1) =~= all.take(k as int).push(all[k as int]));
            }
            k += 1;
        }
        assert(all.take(k as int) =~= all);
        edits
    }
}

impl<'d> Transliterator for HyphensTransliterator<'d> {
    open spec fn spec_transliterate(&self, pool: Seq<CharView>, input: Seq<usize>) -> Result<Outcome, Seq<char>> {
        rewrite(
            pool,
            input,
            hyphen_edits(self.mappings.0@, self.precedence@, read(pool, input)),
        )
    }

    open spec fn keeps_terminator(&self) -> bool {
        values_have_text(self.mappings.0@)
    }

    fn transliterate(&self, pool: &mut CharPool, input: &Vec<usize>) -> (r: Result<
        Vec<usize>,
        TransliterationError,
    >) {
        // Reading the length tells the proof that it fits a `usize`.
        let n = input.len();
        let edits = self.edits(pool, input);
        let r = apply(pool, input, edits);
        proof {
            if r is Ok && self.keeps_terminator() && terminated(read(old(pool)@, input@)) {
                let f = |ch: CharView| replaced(self.mappings.0@, self.precedence@, ch.c);
                assert forall|ch: CharView| !ch.is_sentinel() implies (#[trigger] f(ch)).len()
                    > 0 by {
                    lemma_first_variant(self.mappings.0@, self.precedence@, ch.c, 0);
                }
                lemma_map_outcome_terminated(old(pool)@, input@, f, pool@, r->Ok_0@);
            }
        }
        r
    }
}

} // verus!
