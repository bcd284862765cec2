//! Conversion between ideographs and their variation sequences.

use vstd::prelude::*;
use vstd::string::*;
use crate::chars::{
    is_selector, is_variation_selector, read, terminated, valid_seq, CharPool, CharView,
};
use crate::text::{chars_of, string_from_char};
use crate::transliterator::{
    apply, edit_views, edits_in_range, lemma_map_outcome_terminated, map_edits, rewrite, Edit,
    EditView, Outcome, TransliterationError, Transliterator,
};
use crate::transliterators::Charset;

verus! {

/// One variation sequence and the base characters it stands for.
#[derive(Debug, Clone)]
pub struct IvsSvsBaseRecord {
    /// The ideographic variation sequence.
    pub ivs: String,
    /// The standardized variation sequence, where there is one.
    pub svs: Option<String>,
    /// The base character in the 1990 edition.
    pub base90: Option<String>,
    /// The base character in the 2004 edition.
    pub base2004: Option<String>,
}

/// The mathematical value of an [`IvsSvsBaseRecord`].
pub struct RecordView {
    pub ivs: Seq<char>,
    pub svs: Option<Seq<char>>,
    pub base90: Option<Seq<char>>,
    pub base2004: Option<Seq<char>>,
}

/// The value of an optional string.
pub open spec fn option_view(o: Option<String>) -> Option<Seq<char>> {
    match o {
        Some(s) => Some(s@),
        None => None,
    }
}

impl View for IvsSvsBaseRecord {
    type V = RecordView;

    open spec fn view(&self) -> RecordView {
        RecordView {
            ivs: self.ivs@,
            svs: option_view(self.svs),
            base90: option_view(self.base90),
            base2004: option_view(self.base2004),
        }
    }
}

/// The values of a sequence of records.
pub open spec fn record_views(records: Seq<IvsSvsBaseRecord>) -> Seq<RecordView> {
    records.map_values(|r: IvsSvsBaseRecord| r@)
}

/// A field of a record.
#[derive(Debug, Clone, Copy, PartialEq, Eq, Structural)]
pub enum Field {
    Ivs,
    Svs,
    Base90,
    Base2004,
}

impl RecordView {
    /// The value of field `field`.
    pub open spec fn field(self, field: Field) -> Option<Seq<char>> {
        match field {
            Field::Ivs => Some(self.ivs),
            Field::Svs => self.svs,
            Field::Base90 => self.base90,
            Field::Base2004 => self.base2004,
        }
    }

    /// The base character in `charset`.
    pub open spec fn base(self, charset: Charset) -> Option<Seq<char>> {
        self.field(base_field(charset))
    }
}

/// The field that holds the base character in `charset`.
pub open spec fn base_field(charset: Charset) -> Field {
    match charset {
        Charset::Unijis90 => Field::Base90,
        Charset::Unijis2004 => Field::Base2004,
    }
}

/// Direction of the conversion.
#[derive(Debug, Clone, Copy, PartialEq, Eq, Structural)]
pub enum IvsSvsBaseMode {
    /// Base character to variation sequence; the flag asks for the
    /// standardized sequence where there is one.
    IvsOrSvs(bool),
    /// Variation sequence to base character.
    Base,
}

/// Options of the stage.
#[derive(Debug, Clone, Copy, PartialEq, Eq, Structural)]
pub struct IvsSvsBaseTransliteratorOptions {
    pub mode: IvsSvsBaseMode,
    /// The edition of the character set that says what the base is.
    pub charset: Charset,
    /// In base mode, drop every selector, known or not.
    pub drop_selectors_altogether: bool,
}

impl Default for IvsSvsBaseTransliteratorOptions {
    fn default() -> (r: Self)
        ensures
            r == (IvsSvsBaseTransliteratorOptions {
                mode: IvsSvsBaseMode::Base,
                charset: Charset::Unijis2004,
                drop_selectors_altogether: false,
            }),
    {
        IvsSvsBaseTransliteratorOptions {
            mode: IvsSvsBaseMode::Base,
            charset: Charset::Unijis2004,
            drop_selectors_altogether: false,
        }
    }
}

/// Position of the last of the first `n` records whose field `field` is
/// `key`.
pub open spec fn find_last(records: Seq<RecordView>, field: Field, key: Seq<char>, n: int) -> Option<
    int,
>
    decreases n,
{
    if n <= 0 {
        None
    } else if records[n - 1].field(field) == Some(key) {
        Some(n - 1)
    } else {
        find_last(records, field, key, n - 1)
    }
}

/// The first of the options that is there.
pub open spec fn first_some(a: Option<int>, b: Option<int>, c: Option<int>) -> Option<int> {
    if a is Some {
        a
    } else if b is Some {
        b
    } else {
        c
    }
}

/// The record that says what variation sequence `key` turns into: the
/// last that has it for its base in `charset`, else the last that has it
/// for its standardized sequence, else the last that has it for its
/// ideographic sequence.
pub open spec fn selector_record(records: Seq<RecordView>, charset: Charset, key: Seq<char>) -> Option<
    int,
> {
    let n = records.len() as int;
    first_some(
        find_last(records, base_field(charset), key, n),
        find_last(records, Field::Svs, key, n),
        find_last(records, Field::Ivs, key, n),
    )
}

/// The record that says what base `key` turns into: the last that has it
/// for its standardized sequence, else the last that has it for its
/// ideographic sequence.
pub open spec fn base_record(records: Seq<RecordView>, key: Seq<char>) -> Option<int> {
    let n = records.len() as int;
    first_some(find_last(records, Field::Svs, key, n), find_last(records, Field::Ivs, key, n), None)
}

/// What the records have `text` turn into, or `None` where they know
/// nothing of it.
pub open spec fn replacement(
    options: IvsSvsBaseTransliteratorOptions,
    records: Seq<RecordView>,
    text: Seq<char>,
) -> Option<Seq<char>> {
    match options.mode {
        IvsSvsBaseMode::IvsOrSvs(prefer_svs) => match selector_record(
            records,
            options.charset,
            text,
        ) {
            Some(i) => if prefer_svs && records[i].svs is Some {
                records[i].svs
            } else {
                Some(records[i].ivs)
            },
            None => None,
        },
        IvsSvsBaseMode::Base => match base_record(records, text) {
            Some(i) => records[i].base(options.charset),
            None => None,
        },
    }
}

/// Whether the stage takes the selector off `text` without asking the
/// records: in base mode, where all selectors are to go, a text of two
/// characters whose second is a selector.
pub open spec fn drops_selector(options: IvsSvsBaseTransliteratorOptions, text: Seq<char>) -> bool {
    options.mode == IvsSvsBaseMode::Base && options.drop_selectors_altogether && text.len() == 2
        && is_variation_selector(text[1])
}

/// The text that takes the place of `text`.
pub open spec fn converted(
    options: IvsSvsBaseTransliteratorOptions,
    records: Seq<RecordView>,
    text: Seq<char>,
) -> Seq<char> {
    if drops_selector(options, text) {
        seq![text[0]]
    } else {
        match replacement(options, records, text) {
            Some(t) => t,
            None => text,
        }
    }
}

/// No record holds an empty text.
pub open spec fn records_have_text(records: Seq<RecordView>) -> bool {
    forall|i: int, f: Field|
        0 <= i < records.len() ==> (#[trigger] records[i].field(f) matches Some(t) ==> t.len() > 0)
}

/// Where no record holds an empty text, a text that is not empty is not
/// converted into the empty text.
pub proof fn lemma_converted_has_text(
    options: IvsSvsBaseTransliteratorOptions,
    records: Seq<RecordView>,
    text: Seq<char>,
)
    requires
        records_have_text(records),
        text.len() > 0,
    ensures
        converted(options, records, text).len() > 0,
{
    let n = records.len() as int;
    lemma_find_last(records, Field::Svs, text, n);
    lemma_find_last(records, Field::Ivs, text, n);
    lemma_find_last(records, Field::Base90, text, n);
    lemma_find_last(records, Field::Base2004, text, n);
    match replacement(options, records, text) {
        Some(t) => {
            match options.mode {
                IvsSvsBaseMode::IvsOrSvs(prefer_svs) => {
                    let i = selector_record(records, options.charset, text)->0;
                    assert(records[i].field(Field::Svs) matches Some(x) ==> x.len() > 0);
                    assert(records[i].field(Field::Ivs) matches Some(x) ==> x.len() > 0);
                },
                IvsSvsBaseMode::Base => {
                    let i = base_record(records, text)->0;
                    assert(records[i].field(base_field(options.charset)) matches Some(x)
                        ==> x.len() > 0);
                },
            }
        },
        None => {},
    }
}

/// The edits that the stage makes on `chars`.
pub open spec fn variation_edits(
    options: IvsSvsBaseTransliteratorOptions,
    records: Seq<RecordView>,
    chars: Seq<CharView>,
) -> Seq<EditView> {
    map_edits(chars, |ch: CharView| converted(options, records, ch.c))
}

/// No two records have the same ideographic sequence, no two the same
/// standardized sequence, and no standardized sequence is the ideographic
/// sequence of a record.
pub open spec fn distinct_sequences(records: Seq<RecordView>) -> bool {
    &&& forall|i: int, j: int|
        0 <= i < j < records.len() ==> (#[trigger] records[i]).ivs != (#[trigger] records[j]).ivs
    &&& forall|i: int, j: int|
        0 <= i < j < records.len() && (#[trigger] records[i]).svs is Some ==> records[i].svs
            != (#[trigger] records[j]).svs
    &&& forall|i: int, j: int|
        0 <= i < records.len() && 0 <= j < records.len() ==> (#[trigger] records[i]).svs != Some(
            (#[trigger] records[j]).ivs,
        )
}

/// [`find_last`] gives the last position with the key among the first
/// `n`, and `None` only where there is none.
pub proof fn lemma_find_last(records: Seq<RecordView>, field: Field, key: Seq<char>, n: int)
    requires
        0 <= n <= records.len(),
    ensures
        match find_last(records, field, key, n) {
            Some(i) => 0 <= i < n && records[i].field(field) == Some(key) && forall|j: int|
                i < j < n ==> (#[trigger] records[j]).field(field) != Some(key),
            None => forall|j: int| 0 <= j < n ==> (#[trigger] records[j]).field(field) != Some(key),
        },
    decreases n,
{
    if n > 0 && records[n - 1].field(field) != Some(key) {
        lemma_find_last(records, field, key, n - 1);
    }
}

/// A base character that is turned into a variation sequence and back, in
/// one and the same edition of the character set, comes out as it was:
/// for every record of a data set whose sequences are distinct, and
/// whichever kind of sequence is preferred.
pub proof fn lemma_round_trip(
    records: Seq<RecordView>,
    charset: Charset,
    prefer_svs: bool,
    k: int,
)
    requires
        distinct_sequences(records),
        0 <= k < records.len(),
        records[k].base(charset) is Some,
    ensures
        ({
            let base = records[k].base(charset)->0;
            let to_selector = IvsSvsBaseTransliteratorOptions {
                mode: IvsSvsBaseMode::IvsOrSvs(prefer_svs),
                charset,
                drop_selectors_altogether: false,
            };
            let to_base = IvsSvsBaseTransliteratorOptions {
                mode: IvsSvsBaseMode::Base,
                charset,
                drop_selectors_altogether: false,
            };
            &&& replacement(to_selector, records, base) is Some
            &&& replacement(to_base, records, replacement(to_selector, records, base)->0) == Some(
                base,
            )
        }),
{
    let base = records[k].base(charset)->0;
    let n = records.len() as int;
    lemma_find_last(records, base_field(charset), base, n);
    let i = find_last(records, base_field(charset), base, n)->0;
    assert(find_last(records, base_field(charset), base, n) is Some) by {
        if find_last(records, base_field(charset), base, n) is None {
            assert(records[k].field(base_field(charset)) != Some(base));
        }
    }
    assert(selector_record(records, charset, base) == Some(i));
    let seq_text = if prefer_svs && records[i].svs is Some {
        records[i].svs->0
    } else {
        records[i].ivs
    };
    lemma_find_last(records, Field::Svs, seq_text, n);
    lemma_find_last(records, Field::Ivs, seq_text, n);
    if prefer_svs && records[i].svs is Some {
        match find_last(records, Field::Svs, seq_text, n) {
            Some(j) => {
                if j != i {
                    assert(records[j].svs == records[i].svs);
                    assert(false);
                }
            },
            None => {
                assert(records[i].field(Field::Svs) != Some(seq_text));
            },
        }
    } else {
        match find_last(records, Field::Svs, seq_text, n) {
            Some(j) => {
                assert(records[j].svs == Some(records[i].ivs));
                assert(false);
            },
            None => {},
        }
        match find_last(records, Field::Ivs, seq_text, n) {
            Some(j) => {
                if j != i {
                    assert(records[j].ivs == records[i].ivs);
                    assert(false);
                }
            },
            None => {
                assert(records[i].field(Field::Ivs) != Some(seq_text));
            },
        }
    }
    assert(base_record(records, seq_text) == Some(i));
}

fn field_is(record: &IvsSvsBaseRecord, field: Field, key: &String) -> (r: bool)
    ensures
        r == (record@.field(field) == Some(key@)),
{
    let value = match field {
        Field::Ivs => {
            return record.ivs == *key;
        },
        Field::Svs => &record.svs,
        Field::Base90 => &record.base90,
        Field::Base2004 => &record.base2004,
    };
    match value {
        Some(s) => *s == *key,
        None => false,
    }
}

fn find_record(records: &Vec<IvsSvsBaseRecord>, field: Field, key: &String) -> (r: Option<usize>)
    ensures
        match r {
            Some(i) => find_last(record_views(records@), field, key@, records@.len() as int)
                == Some(i as int) && i < records@.len(),
            None => find_last(record_views(records@), field, key@, records@.len() as int) is None,
        },
{
    let ghost views = record_views(records@);
    let mut n: usize = records.len();
    while n > 0
        invariant
            n <= records.len(),
            views == record_views(records@),
            find_last(views, field, key@, records@.len() as int) == find_last(
                views,
                field,
                key@,
                n as int,
            ),
        decreases n,
    {
        assert(views[n - 1] == records@[n - 1]@);
        if field_is(&records[n - 1], field, key) {
            return Some(n - 1);
        }
        n -= 1;
    }
    None
}

fn clone_option(o: &Option<String>) -> (r: Option<String>)
    ensures
        option_view(r) == option_view(*o),
{
    match o {
        Some(s) => Some(s.clone()),
        None => None,
    }
}

/// The stage that converts between ideographs and variation sequences,
/// by the records of a data set.
#[derive(Debug)]
pub struct IvsSvsBaseTransliterator<'d> {
    pub options: IvsSvsBaseTransliteratorOptions,
    pub records: &'d Vec<IvsSvsBaseRecord>,
}

impl<'d> IvsSvsBaseTransliterator<'d> {
    /// The stage for `options`, working from `records`.
    pub fn new(options: IvsSvsBaseTransliteratorOptions, records: &'d Vec<IvsSvsBaseRecord>) -> (r:
        Self)
        ensures
            r.options == options,
            r.records == records,
    {
        Self { options, records }
    }

    /// What the records have `text` turn into.
    pub fn lookup(&self, text: &String) -> (r: Option<String>)
        ensures
            option_view(r) == replacement(self.options, record_views(self.records@), text@),
    {
        let ghost views = record_views(self.records@);
        match self.options.mode {
            IvsSvsBaseMode::IvsOrSvs(prefer_svs) => {
                let base = match self.options.charset {
                    Charset::Unijis90 => Field::Base90,
                    Charset::Unijis2004 => Field::Base2004,
                };
                let found = match find_record(self.records, base, text) {
                    Some(i) => Some(i),
                    None => match find_record(self.records, Field::Svs, text) {
                        Some(i) => Some(i),
                        None => find_record(self.records, Field::Ivs, text),
                    },
                };
                match found {
                    Some(i) => {
                        let record = &self.records[i];
                        assert(views[i as int] == record@);
                        if prefer_svs {
                            match &record.svs {
                                Some(s) => Some(s.clone()),
                                None => Some(record.ivs.clone()),
                            }
                        } else {
                            Some(record.ivs.clone())
                        }
                    },
                    None => None,
                }
            },
            IvsSvsBaseMode::Base => {
                let found = match find_record(self.records, Field::Svs, text) {
                    Some(i) => Some(i),
                    None => find_record(self.records, Field::Ivs, text),
                };
                match found {
                    Some(i) => {
                        let record = &self.records[i];
                        assert(views[i as int] == record@);
                        match self.options.charset {
                            Charset::Unijis90 => clone_option(&record.base90),
                            Charset::Unijis2004 => clone_option(&record.base2004),
                        }
                    },
                    None => None,
                }
            },
        }
    }

    fn convert(&self, text: &String) -> (r: String)
        ensures
            r@ == converted(self.options, record_views(self.records@), text@),
    {
        let drop = match self.options.mode {
            IvsSvsBaseMode::Base => self.options.drop_selectors_altogether,
            IvsSvsBaseMode::IvsOrSvs(_) => false,
        };
        if drop {
            let chars = chars_of(text.as_str());
            if chars.len() == 2 && is_selector(chars[1]) {
                return string_from_char(chars[0]);
            }
        }
        match self.lookup(text) {
            Some(t) => t,
            None => text.clone(),
        }
    }

    /// Computes the edits of the stage for `input`.
    pub fn edits(&self, pool: &CharPool, input: &Vec<usize>) -> (r: Vec<Edit>)
        requires
            valid_seq(pool@, input@),
        ensures
            edit_views(r@) == variation_edits(
                self.options,
                record_views(self.records@),
                read(pool@, input@),
            ),
            edits_in_range(edit_views(r@), input@.len()),
    {
        let ghost chars = read(pool@, input@);
        let ghost all = variation_edits(self.options, record_views(self.records@), chars);
        let mut edits: Vec<Edit> = Vec::new();
        let mut k: usize = 0;
        assert(edit_views(edits@) =~= all.take(0));
        while k < input.len()
            invariant
                k <= input.len(),
                valid_seq(pool@, input@),
                chars == read(pool@, input@),
                all == variation_edits(self.options, record_views(self.records@), chars),
                edit_views(edits@) == all.take(k as int),
                edits_in_range(edit_views(edits@), input@.len()),
            decreases input.len() - k,
        {
            let ghost before = edit_views(edits@);
            let rec = pool.get(input[k]);
            assert(rec@ == chars[k as int]);
            if rec.is_sentinel() {
                edits.push(Edit::Keep { origin: k });
            } else {
                edits.push(Edit::Put { text: self.convert(&rec.c), origin: k });
            }
            proof {
                assert(edit_views(edits@) =~= before.push(all[k as int]));
                assert(all.take(k + 1) =~= all.take(k as int).push(all[k as int]));
            }
            k += 1;
        }
        assert(all.take(k as int) =~= all);
        edits
    }
}

impl<'d> Transliterator for IvsSvsBaseTransliterator<'d> {
    open spec fn spec_transliterate(&self, pool: Seq<CharView>, input: Seq<usize>) -> Result<Outcome, Seq<char>> {
        rewrite(
            pool,
            input,
            variation_edits(self.options, record_views(self.records@), read(pool, input)),
        )
    }

    open spec fn keeps_terminator(&self) -> bool {
        records_have_text(record_views(self.records@))
    }

    fn transliterate(&self, pool: &mut CharPool, input: &Vec<usize>) -> (r: Result<
        Vec<usize>,
        TransliterationError,
    >) {
        // Reading the length tells the proof that it fits a `usize`.
        let n = input.len();
        let edits = self.edits(pool, input);
        let r = apply(pool, input, edits);
        proof {
            if r is Ok && self.keeps_terminator() && terminated(read(old(pool)@, input@)) {
                let records = record_views(self.records@);
                let f = |ch: CharView| converted(self.options, records, ch.c);
                assert forall|ch: CharView| !ch.is_sentinel() implies (#[trigger] f(ch)).len()
                    > 0 by {
                    lemma_converted_has_text(self.options, records, ch.c);
                }
                lemma_map_outcome_terminated(old(pool)@, input@, f, pool@, r->Ok_0@);
            }
        }
        r
    }
}

} // verus!
