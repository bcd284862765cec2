//! Replacement of circled and squared characters by what they enclose.

use vstd::prelude::*;
use vstd::string::*;
use crate::chars::{read, terminated, valid_seq, CharPool, CharView};
use crate::dataset::{entry_keys, find_entry, find_key, lemma_find_key, CircledOrSquaredRecord};
use crate::text::same_text;
use crate::transliterator::{
    apply, edit_views, edits_in_range, lemma_map_outcome_terminated, map_edits, rewrite, Edit,
    EditView, Outcome, TransliterationError, Transliterator, TransliteratorFactory,
    TransliteratorFactoryError,
};

verus! {

/// Options of the stage.
#[derive(Debug, Clone, Copy, PartialEq, Eq, Structural)]
pub struct CircledOrSquaredTransliteratorOptions {
    /// Replace the characters that are emoji too.
    pub include_emojis: bool,
}

impl Default for CircledOrSquaredTransliteratorOptions {
    fn default() -> (r: Self)
        ensures
            r.include_emojis,
    {
        CircledOrSquaredTransliteratorOptions { include_emojis: true }
    }
}

/// What `record` is rendered as: its text in round brackets for a circle,
/// in square brackets for a square, and bare for anything else.
pub open spec fn rendered(record: CircledOrSquaredRecord) -> Seq<char> {
    if record.type_@ == "circle"@ {
        "("@ + record.rendering@ + ")"@
    } else if record.type_@ == "square"@ {
        "["@ + record.rendering@ + "]"@
    } else {
        record.rendering@
    }
}

/// No entry is rendered as the empty text.
pub open spec fn renderings_have_text(entries: Seq<(String, CircledOrSquaredRecord)>) -> bool {
    forall|i: int| 0 <= i < entries.len() ==> rendered((#[trigger] entries[i]).1).len() > 0
}

/// The text that takes the place of `text`: what its record is rendered
/// as, unless the record is of an emoji and emoji are left alone.
pub open spec fn replaced(
    include_emojis: bool,
    entries: Seq<(String, CircledOrSquaredRecord)>,
    text: Seq<char>,
) -> Seq<char> {
    match find_key(entry_keys(entries), text, entries.len() as int) {
        Some(i) => if !include_emojis && entries[i].1.emoji {
            text
        } else {
            rendered(entries[i].1)
        },
        None => text,
    }
}

/// The edits that the stage makes on `chars`.
pub open spec fn enclosure_edits(
    include_emojis: bool,
    entries: Seq<(String, CircledOrSquaredRecord)>,
    chars: Seq<CharView>,
) -> Seq<EditView> {
    map_edits(chars, |ch: CharView| replaced(include_emojis, entries, ch.c))
}

fn render(record: &CircledOrSquaredRecord) -> (r: String)
    ensures
        r@ == rendered(*record),
{
    if same_text(record.type_.as_str(), "circle") {
        let mut s = String::from_str("(");
        s.append(record.rendering.as_str());
        s.append(")");
        s
    } else if same_text(record.type_.as_str(), "square") {
        let mut s = String::from_str("[");
        s.append(record.rendering.as_str());
        s.append("]");
        s
    } else {
        record.rendering.clone()
    }
}

/// The stage that replaces circled and squared characters.
pub struct CircledOrSquaredTransliterator<'d> {
    pub include_emojis: bool,
    pub entries: &'d Vec<(String, CircledOrSquaredRecord)>,
}

impl<'d> CircledOrSquaredTransliterator<'d> {
    /// The stage for `options`, working from `entries`.
    pub fn new(
        options: CircledOrSquaredTransliteratorOptions,
        entries: &'d Vec<(String, CircledOrSquaredRecord)>,
    ) -> (r: Self)
        ensures
            r.include_emojis == options.include_emojis,
            r.entries == entries,
    {
        Self { include_emojis: options.include_emojis, entries }
    }

    fn replace(&self, text: &String) -> (r: String)
        ensures
            r@ == replaced(self.include_emojis, self.entries@, text@),
    {
        match find_entry(self.entries, text) {
            Some(i) => {
                let record = &self.entries[i].1;
                if !self.include_emojis && record.emoji {
                    text.clone()
                } else {
                    render(record)
                }
            },
            None => text.clone(),
        }
    }

    /// Computes the edits of the stage for `input`.
    pub fn edits(&self, pool: &CharPool, input: &Vec<usize>) -> (r: Vec<Edit>)
        requires
            valid_seq(pool@, input@),
        ensures
            edit_views(r@) == enclosure_edits(self.include_emojis, self.entries@, read(pool@, input@)),
            edits_in_range(edit_views(r@), input@.len()),
    {
        let ghost chars = read(pool@, input@);
        let ghost all = enclosure_edits(self.include_emojis, self.entries@, chars);
        let mut edits: Vec<Edit> = Vec::new();
        let mut k: usize = 0;
        assert(edit_views(edits@) =~= all.take(0));
        while k < input.len()
            invariant
                k <= input.len(),
                valid_seq(pool@, input@),
                chars == read(pool@, input@),
                all == enclosure_edits(self.include_emojis, self.entries@, chars),
                edit_views(edits@) == all.take(k as int),
                edits_in_range(edit_views(edits@), input@.len()),
            decreases input.len() - k,
        {
            let ghost before = edit_views(edits@);
            let rec = pool.get(input[k]);
            assert(rec@ == chars[k as int]);
            if rec.is_sentinel() {
                edits.push(Edit::Keep { origin: k });
            } else {
                edits.push(Edit::Put { text: self.replace(&rec.c), origin: k });
            }
            proof {
                assert(edit_views(edits@) =~= before.push(all[k as int]));
                assert(all.take(k + 1) =~= all.take(k as int).push(all[k as int]));
            }
            k += 1;
        }
        assert(all.take(k as int) =~= all);
        edits
    }
}

impl<'d> Transliterator for CircledOrSquaredTransliterator<'d> {
    open spec fn spec_transliterate(&self, pool: Seq<CharView>, input: Seq<usize>) -> Result<Outcome, Seq<char>> {
        rewrite(
            pool,
            input,
            enclosure_edits(self.include_emojis, self.entries@, read(pool, input)),
        )
    }

    open spec fn keeps_terminator(&self) -> bool {
        renderings_have_text(self.entries@)
    }

    fn transliterate(&self, pool: &mut CharPool, input: &Vec<usize>) -> (r: Result<
        Vec<usize>,
        TransliterationError,
    >) {
        // Reading the length tells the proof that it fits a `usize`.
        let n = input.len();
        let edits = self.edits(pool, input);
        let r = apply(pool, input, edits);
        proof {
            if r is Ok && self.keeps_terminator() && terminated(read(old(pool)@, input@)) {
                let f = |ch: CharView| replaced(self.include_emojis, self.entries@, ch.c);
                assert forall|ch: CharView| !ch.is_sentinel() implies (#[trigger] f(ch)).len()
                    > 0 by {
                    lemma_find_key(entry_keys(self.entries@), ch.c, self.entries@.len() as int);
                }
                lemma_map_outcome_terminated(old(pool)@, input@, f, pool@, r->Ok_0@);
            }
        }
        r
    }
}

/// Makes the stage for the options and the entries it holds.
pub struct CircledOrSquaredTransliteratorFactory<'d> {
    pub options: CircledOrSquaredTransliteratorOptions,
    pub entries: &'d Vec<(String, CircledOrSquaredRecord)>,
}

impl<'d> CircledOrSquaredTransliteratorFactory<'d> {
    /// The factory for `options`, working from `entries`.
    pub fn new(
        options: CircledOrSquaredTransliteratorOptions,
        entries: &'d Vec<(String, CircledOrSquaredRecord)>,
    ) -> (r: Self)
        ensures
            r.options == options,
            r.entries == entries,
    {
        Self { options, entries }
    }
}

impl<'d> TransliteratorFactory for CircledOrSquaredTransliteratorFactory<'d> {
    type Output = CircledOrSquaredTransliterator<'d>;

    open spec fn makes(&self, stage: CircledOrSquaredTransliterator<'d>) -> bool {
        stage.include_emojis == self.options.include_emojis && stage.entries == self.entries
    }

    fn new_transliterator(&self) -> (r: Result<
        CircledOrSquaredTransliterator<'d>,
        TransliteratorFactoryError,
    >) {
        Ok(CircledOrSquaredTransliterator::new(self.options, self.entries))
    }
}

} // verus!
