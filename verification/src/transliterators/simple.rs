//! Substitution by a table: a record whose text the table knows gives way
//! to the text that the table has for it.

use vstd::prelude::*;
use vstd::string::*;
use crate::chars::{read, terminated, valid_seq, CharPool, CharView};
use crate::dataset::{table_entries, table_get, table_usable};
use crate::transliterator::{
    apply, edit_views, edits_in_range, lemma_map_outcome_terminated, map_edits, rewrite, Edit,
    EditView, Outcome, TransliterationError, Transliterator,
};

verus! {

/// The table maps nothing to the empty text.
pub open spec fn no_empty_value(entries: Map<Seq<char>, Seq<char>>) -> bool {
    forall|k: Seq<char>| entries.contains_key(k) ==> (#[trigger] entries[k]).len() > 0
}

/// The text that takes the place of `text`.
pub open spec fn substituted(entries: Map<Seq<char>, Seq<char>>, text: Seq<char>) -> Seq<char> {
    if entries.contains_key(text) {
        entries[text]
    } else {
        text
    }
}

/// The edits that substitution by `entries` makes on `chars`.
pub open spec fn substitution_edits(entries: Map<Seq<char>, Seq<char>>, chars: Seq<CharView>) -> Seq<
    EditView,
> {
    map_edits(chars, |ch: CharView| substituted(entries, ch.c))
}

/// The stage that substitutes by a table in which a look-up comes back.
pub struct SimpleTransliterator {
    mappings: &'static phf::Map<&'static str, &'static str>,
}

impl SimpleTransliterator {
    #[verifier::type_invariant]
    spec fn wf(&self) -> bool {
        table_usable(*self.mappings)
    }

    /// The stage that substitutes by `mappings`.
    pub fn new(mappings: &'static phf::Map<&'static str, &'static str>) -> (r: Self)
        requires
            table_usable(*mappings),
        ensures
            r.table() == *mappings,
    {
        Self { mappings }
    }

    /// The table that the stage substitutes by.
    pub closed spec fn table(&self) -> phf::Map<&'static str, &'static str> {
        *self.mappings
    }

    /// What the table holds.
    pub open spec fn entries(&self) -> Map<Seq<char>, Seq<char>> {
        table_entries(self.table())
    }

    /// Computes the edits of the stage for `input`.
    pub fn edits(&self, pool: &CharPool, input: &Vec<usize>) -> (r: Vec<Edit>)
        requires
            valid_seq(pool@, input@),
        ensures
            edit_views(r@) == substitution_edits(self.entries(), read(pool@, input@)),
            edits_in_range(edit_views(r@), input@.len()),
    {
        proof {
            use_type_invariant(self);
        }
        let ghost chars = read(pool@, input@);
        let ghost all = substitution_edits(self.entries(), chars);
        let mut edits: Vec<Edit> = Vec::new();
        let mut k: usize = 0;
        assert(edit_views(edits@) =~= all.take(0));
        while k < input.len()
            invariant
                k <= input.len(),
                self.wf(),
                valid_seq(pool@, input@),
                chars == read(pool@, input@),
                all == substitution_edits(self.entries(), chars),
                edit_views(edits@) == all.take(k as int),
                edits_in_range(edit_views(edits@), input@.len()),
            decreases input.len() - k,
        {
            let ghost before = edit_views(edits@);
            let rec = pool.get(input[k]);
            assert(rec@ == chars[k as int]);
            if rec.is_sentinel() {
                edits.push(Edit::Keep { origin: k });
            } else {
                let text = match table_get(self.mappings, rec.c.as_str()) {
                    Some(mapped) => String::from_str(mapped),
                    None => rec.c.clone(),
                };
                edits.push(Edit::Put { text, origin: k });
            }
            proof {
                assert(edit_views(edits@) =~= before.push(all[k as int]));
                assert(all.take(k + 1) =~= all.take(k as int).push(all[k as int]));
            }
            k += 1;
        }
        assert(all.take(k as int) =~= all);
        edits
    }
}

impl Transliterator for SimpleTransliterator {
    open spec fn spec_transliterate(&self, pool: Seq<CharView>, input: Seq<usize>) -> Result<Outcome, Seq<char>> {
        rewrite(pool, input, substitution_edits(self.entries(), read(pool, input)))
    }

    open spec fn keeps_terminator(&self) -> bool {
        no_empty_value(self.entries())
    }

    fn transliterate(&self, pool: &mut CharPool, input: &Vec<usize>) -> (r: Result<
        Vec<usize>,
        TransliterationError,
    >) {
        // Reading the length tells the proof that it fits a `usize`.
        let n = input.len();
        let edits = self.edits(pool, input);
        let r = apply(pool, input, edits);
        proof {
            if r is Ok && self.keeps_terminator() && terminated(read(old(pool)@, input@)) {
                let f = |ch: CharView| substituted(self.entries(), ch.c);
                lemma_map_outcome_terminated(old(pool)@, input@, f, pool@, r->Ok_0@);
            }
        }
        r
    }
}

} // verus!
