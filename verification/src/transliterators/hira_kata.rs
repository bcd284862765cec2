//! Conversion between hiragana and katakana.

use vstd::prelude::*;
use vstd::string::*;
use std::collections::HashMap;
use crate::chars::{read, terminated, valid_seq, CharPool, CharView};
use crate::text::{single_char, string_from_char};
use crate::transliterator::{
    apply, edit_views, edits_in_range, lemma_map_outcome_terminated, map_edits, rewrite, Edit,
    EditView, Outcome, TransliterationError, Transliterator, TransliteratorFactory,
    TransliteratorFactoryError,
};
use crate::transliterators::kana_table::{
    index_pairs, lemma_pairs_map, lookup, pairs_map, HIRA, HIRA_SEMI, HIRA_VOICED, KANA, KANA_ROWS,
    KATA, KATA_SEMI, KATA_VOICED, NONE, SMALL_KANA, SMALL_KANA_ROWS,
};

verus! {

/// Direction of the conversion.
#[derive(Debug, Clone, Copy, PartialEq, Eq, Structural)]
pub enum Mode {
    /// Hiragana to katakana.
    HiraToKata,
    /// Katakana to hiragana.
    KataToHira,
}

impl Default for Mode {
    fn default() -> (r: Self)
        ensures
            r == Mode::HiraToKata,
    {
        Mode::HiraToKata
    }
}

/// Options of the stage.
#[derive(Debug, Clone, Copy, PartialEq, Eq, Structural)]
pub struct HiraKataTransliteratorOptions {
    pub mode: Mode,
}

impl Default for HiraKataTransliteratorOptions {
    fn default() -> (r: Self)
        ensures
            r.mode == Mode::HiraToKata,
    {
        HiraKataTransliteratorOptions { mode: Mode::HiraToKata }
    }
}

/// `(a, b)`, or `(b, a)` where `swap` is set.
pub open spec fn oriented(a: char, b: char, swap: bool) -> (char, char) {
    if swap {
        (b, a)
    } else {
        (a, b)
    }
}

/// The pairs that a row of the kana table adds: its plain forms, and its
/// voiced and semi-voiced forms where both scripts have them.
pub open spec fn row_pairs(row: [char; 7], swap: bool) -> Seq<(char, char)> {
    seq![oriented(row@[0], row@[3], swap)] + (if row@[1] != NONE && row@[4] != NONE {
        seq![oriented(row@[1], row@[4], swap)]
    } else {
        Seq::<(char, char)>::empty()
    }) + (if row@[2] != NONE && row@[5] != NONE {
        seq![oriented(row@[2], row@[5], swap)]
    } else {
        Seq::<(char, char)>::empty()
    })
}

/// The pairs of the first `n` rows of the kana table.
pub open spec fn main_pairs(swap: bool, n: int) -> Seq<(char, char)>
    decreases n,
{
    if n <= 0 {
        Seq::<(char, char)>::empty()
    } else {
        main_pairs(swap, n - 1) + row_pairs(KANA@[n - 1], swap)
    }
}

/// The pairs of the first `n` rows of the table of small kana.
pub open spec fn small_pairs(swap: bool, n: int) -> Seq<(char, char)>
    decreases n,
{
    if n <= 0 {
        Seq::<(char, char)>::empty()
    } else {
        small_pairs(swap, n - 1).push(oriented(SMALL_KANA@[n - 1]@[0], SMALL_KANA@[n - 1]@[1], swap))
    }
}

/// The pairs of a character and what it is converted to.
pub open spec fn conversion_pairs(mode: Mode) -> Seq<(char, char)> {
    let swap = mode == Mode::KataToHira;
    main_pairs(swap, KANA_ROWS as int) + small_pairs(swap, SMALL_KANA_ROWS as int)
}

/// The text that takes the place of `text`: a single kana of the script
/// that is converted gives way to its counterpart.
pub open spec fn converted(mode: Mode, text: Seq<char>) -> Seq<char> {
    if text.len() == 1 && lookup(conversion_pairs(mode), text[0]) is Some {
        seq![lookup(conversion_pairs(mode), text[0])->0]
    } else {
        text
    }
}

fn build_table(swap: bool) -> (r: Vec<(char, char)>)
    ensures
        r@ == main_pairs(swap, KANA_ROWS as int) + small_pairs(swap, SMALL_KANA_ROWS as int),
{
    let mut r: Vec<(char, char)> = Vec::new();
    let mut i: usize = 0;
    while i < KANA_ROWS
        invariant
            i <= KANA_ROWS,
            r@ == main_pairs(swap, i as int),
        decreases KANA_ROWS - i,
    {
        let ghost before = r@;
        let row = KANA[i];
        r.push(if swap { (row[KATA], row[HIRA]) } else { (row[HIRA], row[KATA]) });
        if row[HIRA_VOICED] != NONE && row[KATA_VOICED] != NONE {
            r.push(
                if swap {
                    (row[KATA_VOICED], row[HIRA_VOICED])
                } else {
                    (row[HIRA_VOICED], row[KATA_VOICED])
                },
            );
        }
        if row[HIRA_SEMI] != NONE && row[KATA_SEMI] != NONE {
            r.push(
                if swap {
                    (row[KATA_SEMI], row[HIRA_SEMI])
                } else {
                    (row[HIRA_SEMI], row[KATA_SEMI])
                },
            );
        }
        assert(r@ =~= before + row_pairs(KANA@[i as int], swap));
        i += 1;
    }
    let ghost main = r@;
    let mut j: usize = 0;
    assert(main + small_pairs(swap, 0) =~= main);
    while j < SMALL_KANA_ROWS
        invariant
            j <= SMALL_KANA_ROWS,
            main == main_pairs(swap, KANA_ROWS as int),
            r@ == main + small_pairs(swap, j as int),
        decreases SMALL_KANA_ROWS - j,
    {
        let row = SMALL_KANA[j];
        r.push(if swap { (row[1], row[0]) } else { (row[0], row[1]) });
        assert(r@ =~= main + small_pairs(swap, j + 1));
        j += 1;
    }
    r
}

/// The edits that the stage makes on `chars` in mode `mode`.
pub open spec fn conversion_edits(mode: Mode, chars: Seq<CharView>) -> Seq<EditView> {
    map_edits(chars, |ch: CharView| converted(mode, ch.c))
}

/// The stage that converts between hiragana and katakana.
#[derive(Debug)]
pub struct HiraKataTransliterator {
    mode: Mode,
    mapping_table: HashMap<u32, char>,
}

impl View for HiraKataTransliterator {
    type V = HiraKataTransliteratorOptions;

    closed spec fn view(&self) -> HiraKataTransliteratorOptions {
        HiraKataTransliteratorOptions { mode: self.mode }
    }
}

impl HiraKataTransliterator {
    /// The table holds the pairs of the mode.
    #[verifier::type_invariant]
    spec fn wf(&self) -> bool {
        self.mapping_table@ == pairs_map(conversion_pairs(self.mode))
    }

    /// The stage for `options`, with the table of its direction.
    pub fn new(options: HiraKataTransliteratorOptions) -> (r: Self)
        ensures
            r@ == options,
    {
        let mapping_table = match options.mode {
            Mode::HiraToKata => Self::build_hira_to_kata_table(),
            Mode::KataToHira => Self::build_kata_to_hira_table(),
        };
        Self { mode: options.mode, mapping_table }
    }

    /// The table from hiragana to katakana.
    pub fn build_hira_to_kata_table() -> (r: HashMap<u32, char>)
        ensures
            r@ == pairs_map(conversion_pairs(Mode::HiraToKata)),
    {
        let pairs = build_table(false);
        index_pairs(&pairs)
    }

    /// The table from katakana to hiragana.
    pub fn build_kata_to_hira_table() -> (r: HashMap<u32, char>)
        ensures
            r@ == pairs_map(conversion_pairs(Mode::KataToHira)),
    {
        let pairs = build_table(true);
        index_pairs(&pairs)
    }

    /// Computes the edits of the stage for `input`.
    pub fn edits(&self, pool: &CharPool, input: &Vec<usize>) -> (r: Vec<Edit>)
        requires
            valid_seq(pool@, input@),
        ensures
            edit_views(r@) == conversion_edits(self@.mode, read(pool@, input@)),
            edits_in_range(edit_views(r@), input@.len()),
    {
        proof {
            use_type_invariant(self);
        }
        let ghost chars = read(pool@, input@);
        let ghost all = conversion_edits(self.mode, chars);
        let mut edits: Vec<Edit> = Vec::new();
        let mut k: usize = 0;
        assert(edit_views(edits@) =~= all.take(0));
        while k < input.len()
            invariant
                k <= input.len(),
                self.wf(),
                valid_seq(pool@, input@),
                chars == read(pool@, input@),
                all == conversion_edits(self.mode, chars),
                edit_views(edits@) == all.take(k as int),
                edits_in_range(edit_views(edits@), input@.len()),
            decreases input.len() - k,
        {
            let ghost before = edit_views(edits@);
            let rec = pool.get(input[k]);
            assert(rec@ == chars[k as int]);
            if rec.is_sentinel() {
                edits.push(Edit::Keep { origin: k });
            } else {
                let mapped = match single_char(rec.c.as_str()) {
                    Some(c) => {
                        proof {
                            lemma_pairs_map(conversion_pairs(self.mode), c);
                        }
                        match self.mapping_table.get(&(c as u32)) {
                            Some(m) => Some(*m),
                            None => None,
                        }
                    },
                    None => None,
                };
                let text = match mapped {
                    Some(m) => string_from_char(m),
                    None => rec.c.clone(),
                };
                edits.push(Edit::Put { text, origin: k });
            }
            proof {
                assert(edit_views(edits@) =~= before.push(all[k as int]));
                assert(all.take(k + 1) =~= all.take(k as int).push(all[k as int]));
            }
            k += 1;
        }
        assert(all.take(k as int) =~= all);
        edits
    }
}

impl Transliterator for HiraKataTransliterator {
    open spec fn spec_transliterate(&self, pool: Seq<CharView>, input: Seq<usize>) -> Result<Outcome, Seq<char>> {
        rewrite(pool, input, conversion_edits(self@.mode, read(pool, input)))
    }

    open spec fn keeps_terminator(&self) -> bool {
        true
    }

    fn transliterate(&self, pool: &mut CharPool, input: &Vec<usize>) -> (r: Result<
        Vec<usize>,
        TransliterationError,
    >) {
        // Reading the length tells the proof that it fits a `usize`.
        let n = input.len();
        let edits = self.edits(pool, input);
        let r = apply(pool, input, edits);
        proof {
            if r is Ok && self.keeps_terminator() && terminated(read(old(pool)@, input@)) {
                let f = |ch: CharView| converted(self@.mode, ch.c);
                lemma_map_outcome_terminated(old(pool)@, input@, f, pool@, r->Ok_0@);
            }
        }
        r
    }
}

impl TransliteratorFactory for HiraKataTransliteratorOptions {
    type Output = HiraKataTransliterator;

    open spec fn makes(&self, stage: HiraKataTransliterator) -> bool {
        stage@ == *self
    }

    fn new_transliterator(&self) -> (r: Result<HiraKataTransliterator, TransliteratorFactoryError>) {
        Ok(HiraKataTransliterator::new(*self))
    }
}

/// Makes the stage for the options it holds.
pub struct HiraKataTransliteratorFactory(pub HiraKataTransliteratorOptions);

impl TransliteratorFactory for HiraKataTransliteratorFactory {
    type Output = HiraKataTransliterator;

    open spec fn makes(&self, stage: HiraKataTransliterator) -> bool {
        stage@ == self.0
    }

    fn new_transliterator(&self) -> (r: Result<HiraKataTransliterator, TransliteratorFactoryError>) {
        Ok(HiraKataTransliterator::new(self.0))
    }
}

} // verus!
