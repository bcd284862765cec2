//! Character records and the pool that owns them.
//!
//! A record is one logical character position in some generation of the
//! text. Records never change once made: a rewrite allocates a new record
//! that names the record it derives from by its index in the pool.

use vstd::prelude::*;
use vstd::string::*;
use vstd::slice::*;
use crate::text::{byte_len, char_width, chars_of, lemma_byte_len_concat, lemma_byte_len_prefix, lemma_byte_len_push, lemma_byte_len_single, string_from_char, string_from_pair};

verus! {

/// One character position: its text, its byte offset within the text of its
/// own generation, and the record it derives from.
///
/// A record whose text is empty is a terminator.
#[derive(Debug)]
pub struct Char {
    /// One or more scalars: a lone character, or a base character and its
    /// variation selector taken as one unit.
    pub c: String,
    /// Byte offset of this record within the text it belongs to.
    pub offset: usize,
    /// Index in the pool of the record this one derives from.
    pub source: Option<usize>,
}

/// The mathematical value of a [`Char`].
pub struct CharView {
    pub c: Seq<char>,
    pub offset: nat,
    pub source: Option<usize>,
}

impl View for Char {
    type V = CharView;

    open spec fn view(&self) -> CharView {
        CharView { c: self.c@, offset: self.offset as nat, source: self.source }
    }
}

impl CharView {
    /// A terminator is a record with no text.
    pub open spec fn is_sentinel(self) -> bool {
        self.c.len() == 0
    }
}

impl Char {
    /// A record made directly from input text.
    pub fn new(c: String, offset: usize) -> (r: Char)
        ensures
            r@ == (CharView { c: c@, offset: offset as nat, source: None }),
    {
        Char { c, offset, source: None }
    }

    /// A record that may name the record it derives from.
    pub fn new_from(c: String, offset: usize, source: Option<usize>) -> (r: Char)
        ensures
            r@ == (CharView { c: c@, offset: offset as nat, source }),
    {
        Char { c, offset, source }
    }

    /// A terminator at the given offset.
    pub fn new_sentinel(offset: usize) -> (r: Char)
        ensures
            r@ == (CharView { c: Seq::<char>::empty(), offset: offset as nat, source: None }),
    {
        Char { c: String::new(), offset, source: None }
    }

    /// The text of the record, or `None` for a terminator.
    pub fn c(&self) -> (r: Option<&str>)
        ensures
            r is None <==> self@.is_sentinel(),
            r matches Some(s) ==> s@ == self@.c,
    {
        if self.c.as_str().is_empty() {
            None
        } else {
            Some(self.c.as_str())
        }
    }

    /// Whether the record is a terminator.
    pub fn is_sentinel(&self) -> (r: bool)
        ensures
            r == self@.is_sentinel(),
    {
        self.c.as_str().is_empty()
    }

    /// Whether some record on the chain of origins that starts at this
    /// record differs in text from the record it derives from.
    ///
    /// `pool` is the pool that owns this record's origins.
    pub fn is_transliterated(&self, pool: &CharPool) -> (r: bool)
        requires
            pool.wf(),
            self.source matches Some(j) ==> j < pool@.len(),
        ensures
            r == chain_transformed(pool@, self@),
    {
        match self.source {
            None => false,
            Some(j) => {
                let origin = pool.get(j);
                if !(self.c == origin.c) {
                    true
                } else {
                    pool.is_transliterated(j)
                }
            },
        }
    }
}

/// Every record of `pool` derives, if from any, from an earlier record: the
/// chains of origins are finite and free of cycles.
pub open spec fn origins_precede(pool: Seq<CharView>) -> bool {
    forall|i: int|
        0 <= i < pool.len() ==> (#[trigger] pool[i].source matches Some(j) ==> j < i)
}

/// Whether the chain of origins that starts at record `i` holds a record
/// whose text differs from the text of its own origin.
pub open spec fn is_transformed(pool: Seq<CharView>, i: int) -> bool
    decreases i,
{
    if 0 <= i < pool.len() {
        match pool[i].source {
            Some(j) => j < i && (pool[i].c != pool[j as int].c || is_transformed(pool, j as int)),
            None => false,
        }
    } else {
        false
    }
}

/// [`is_transformed`] for a record that need not itself be in the pool.
pub open spec fn chain_transformed(pool: Seq<CharView>, r: CharView) -> bool {
    match r.source {
        Some(j) => j < pool.len() && (r.c != pool[j as int].c || is_transformed(pool, j as int)),
        None => false,
    }
}

/// Every element of `seq` is the index of a record of `pool`.
pub open spec fn valid_seq(pool: Seq<CharView>, seq: Seq<usize>) -> bool {
    forall|k: int| 0 <= k < seq.len() ==> (#[trigger] seq[k]) < pool.len()
}

/// The records that `seq` names, in order.
pub open spec fn read(pool: Seq<CharView>, seq: Seq<usize>) -> Seq<CharView> {
    Seq::new(seq.len(), |k: int| pool[seq[k] as int])
}

/// The sequence ends with a terminator and holds no other: every record but
/// the last has text, and the last has none.
pub open spec fn terminated(chars: Seq<CharView>) -> bool {
    &&& chars.len() > 0
    &&& chars.last().is_sentinel()
    &&& forall|k: int| 0 <= k < chars.len() - 1 ==> !(#[trigger] chars[k]).is_sentinel()
}

/// The texts of `chars` joined in order. Terminators, having no text, add
/// nothing.
pub open spec fn flatten(chars: Seq<CharView>) -> Seq<char>
    decreases chars.len(),
{
    if chars.len() == 0 {
        Seq::<char>::empty()
    } else {
        flatten(chars.drop_last()) + chars.last().c
    }
}

/// Joining the texts of a sequence that ends with a terminator leaves the
/// terminator out: the text is that of the records before it.
pub proof fn lemma_flatten_drops_terminator(chars: Seq<CharView>)
    requires
        terminated(chars),
    ensures
        flatten(chars) == flatten(chars.drop_last()),
{
    assert(flatten(chars.drop_last()) + chars.last().c =~= flatten(chars.drop_last()));
}

/// Whether `c` is a variation selector (U+FE00..U+FE0F, U+E0100..U+E01EF).
pub open spec fn is_variation_selector(c: char) -> bool {
    let v = c as u32;
    (0xFE00 <= v <= 0xFE0F) || (0xE0100 <= v <= 0xE01EF)
}

/// Whether `c` is a variation selector.
pub fn is_selector(c: char) -> (r: bool)
    ensures
        r == is_variation_selector(c),
{
    let v: u32 = c as u32;
    (0xFE00 <= v && v <= 0xFE0F) || (0xE0100 <= v && v <= 0xE01EF)
}

/// The records that input text `s`, which starts at byte `offset`, is cut
/// into: a character directly followed by a variation selector makes one
/// record with it, any other character a record of its own, and a terminator
/// closes the sequence at the text's byte length.
pub open spec fn char_array(s: Seq<char>, offset: nat) -> Seq<CharView>
    decreases s.len(),
{
    if s.len() == 0 {
        seq![CharView { c: Seq::<char>::empty(), offset, source: None }]
    } else {
        let n: int = if s.len() >= 2 && is_variation_selector(s[1]) {
            2
        } else {
            1
        };
        seq![CharView { c: s.take(n), offset, source: None }] + char_array(
            s.skip(n),
            offset + byte_len(s.take(n)),
        )
    }
}

/// The indices `start, start + 1, ..., start + n - 1`.
pub open spec fn index_run(start: nat, n: nat) -> Seq<usize> {
    Seq::new(n, |k: int| (start + k) as usize)
}

/// The arena that owns every record made during one run.
#[derive(Debug)]
pub struct CharPool {
    chars: Vec<Char>,
}

impl View for CharPool {
    type V = Seq<CharView>;

    closed spec fn view(&self) -> Seq<CharView> {
        self.chars@.map_values(|c: Char| c@)
    }
}

impl CharPool {
    /// The pool's invariant: origins precede the records that name them.
    pub open spec fn wf(&self) -> bool {
        origins_precede(self@)
    }

    /// An empty pool.
    pub fn new() -> (r: CharPool)
        ensures
            r@ == Seq::<CharView>::empty(),
            r.wf(),
    {
        let r = CharPool { chars: Vec::new() };
        assert(r@ =~= Seq::<CharView>::empty());
        r
    }

    /// Number of records in the pool.
    pub fn len(&self) -> (n: usize)
        ensures
            n == self@.len(),
    {
        self.chars.len()
    }

    /// The record at index `i`.
    pub fn get(&self, i: usize) -> (r: &Char)
        requires
            i < self@.len(),
        ensures
            r@ == self@[i as int],
    {
        &self.chars[i]
    }

    /// Whether every element of `seq` names a record of this pool.
    pub fn holds(&self, seq: &Vec<usize>) -> (r: bool)
        ensures
            r == valid_seq(self@, seq@),
    {
        let n = self.chars.len();
        let mut k: usize = 0;
        while k < seq.len()
            invariant
                k <= seq.len(),
                n == self@.len(),
                forall|j: int| 0 <= j < k ==> (#[trigger] seq@[j]) < n,
            decreases seq.len() - k,
        {
            if seq[k] >= n {
                return false;
            }
            k += 1;
        }
        true
    }

    fn push(&mut self, ch: Char) -> (i: usize)
        ensures
            final(self)@ == old(self)@.push(ch@),
            i == old(self)@.len(),
    {
        let i = self.chars.len();
        self.chars.push(ch);
        assert(self@ =~= old(self)@.push(ch@));
        i
    }

    /// Adds a record made directly from input text and returns its index.
    pub fn new_char(&mut self, c: String, offset: usize) -> (i: usize)
        requires
            old(self).wf(),
        ensures
            final(self).wf(),
            final(self)@ == old(self)@.push(
                CharView { c: c@, offset: offset as nat, source: None },
            ),
            i == old(self)@.len(),
    {
        self.push(Char::new(c, offset))
    }

    /// Adds a record that derives from the record at `source` and returns
    /// its index.
    pub fn new_char_from(&mut self, c: String, offset: usize, source: usize) -> (i: usize)
        requires
            old(self).wf(),
            source < old(self)@.len(),
        ensures
            final(self).wf(),
            final(self)@ == old(self)@.push(
                CharView { c: c@, offset: offset as nat, source: Some(source) },
            ),
            i == old(self)@.len(),
    {
        self.push(Char::new_from(c, offset, Some(source)))
    }

    /// Adds a copy of the record at `original`, placed at `offset` and
    /// deriving from it, and returns its index.
    pub fn new_with_offset(&mut self, original: usize, offset: usize) -> (i: usize)
        requires
            old(self).wf(),
            original < old(self)@.len(),
        ensures
            final(self).wf(),
            final(self)@ == old(self)@.push(
                CharView {
                    c: old(self)@[original as int].c,
                    offset: offset as nat,
                    source: Some(original),
                },
            ),
            i == old(self)@.len(),
    {
        let c = self.chars[original].c.clone();
        self.new_char_from(c, offset, original)
    }

    /// Adds a terminator at `offset` and returns its index.
    pub fn new_sentinel(&mut self, offset: usize) -> (i: usize)
        requires
            old(self).wf(),
        ensures
            final(self).wf(),
            final(self)@ == old(self)@.push(
                CharView { c: Seq::<char>::empty(), offset: offset as nat, source: None },
            ),
            i == old(self)@.len(),
    {
        self.push(Char::new_sentinel(offset))
    }

    /// Whether the chain of origins that starts at record `i` holds a
    /// record whose text differs from the text of its own origin.
    pub fn is_transliterated(&self, i: usize) -> (r: bool)
        requires
            self.wf(),
            i < self@.len(),
        ensures
            r == is_transformed(self@, i as int),
    {
        let mut cur: usize = i;
        loop
            invariant
                self.wf(),
                cur < self@.len(),
                is_transformed(self@, i as int) == is_transformed(self@, cur as int),
            decreases cur,
        {
            let rec = self.get(cur);
            match rec.source {
                None => {
                    return false;
                },
                Some(j) => {
                    let origin = self.get(j);
                    if !(rec.c == origin.c) {
                        return true;
                    }
                    cur = j;
                },
            }
        }
    }

    /// Cuts `text` into records, adds them to the pool followed by a
    /// terminator, and returns their indices in order.
    pub fn build_char_array(&mut self, text: &str) -> (out: Vec<usize>)
        requires
            old(self).wf(),
        ensures
            final(self).wf(),
            final(self)@ == old(self)@ + char_array(text@, 0),
            out@ == index_run(old(self)@.len(), char_array(text@, 0).len()),
    {
        let chars = chars_of(text);
        let total = text.as_bytes().len();
        let ghost base = self@;
        let ghost s = text@;
        let mut out: Vec<usize> = Vec::new();
        let mut k: usize = 0;
        let mut off: usize = 0;
        proof {
            assert(s.skip(0) =~= s);
            assert(s.take(0) =~= Seq::<char>::empty());
            assert(base + char_array(s, 0) =~= self@ + char_array(s.skip(0), 0));
        }
        while k < chars.len()
            invariant
                k <= chars.len(),
                chars@ == s,
                total == byte_len(s),
                off == byte_len(s.take(k as int)),
                self.wf(),
                base + char_array(s, 0) == self@ + char_array(s.skip(k as int), off as nat),
                self@.len() == base.len() + out@.len(),
                out@ == index_run(base.len(), out@.len()),
            decreases chars.len() - k,
        {
            let first = chars[k];
            let ghost rest = s.skip(k as int);
            let ghost before = self@;
            let n: usize = if k + 1 < chars.len() && is_selector(chars[k + 1]) {
                2
            } else {
                1
            };
            let unit = if n == 2 {
                string_from_pair(first, chars[k + 1])
            } else {
                string_from_char(first)
            };
            proof {
                assert(rest.len() == s.len() - k);
                assert(rest[0] == s[k as int]);
                if rest.len() >= 2 {
                    assert(rest[1] == s[k + 1]);
                }
                assert(unit@ =~= rest.take(n as int));
                assert(rest.skip(n as int) =~= s.skip(k + n));
                assert(s.take(k as int) + rest.take(n as int) =~= s.take(k + n));
                lemma_byte_len_concat(s.take(k as int), rest.take(n as int));
                lemma_byte_len_prefix(s, k + n);
            }
            let i = self.new_char(unit, off);
            out.push(i);
            proof {
                let rec = CharView { c: rest.take(n as int), offset: off as nat, source: None };
                assert(char_array(rest, off as nat) == seq![rec] + char_array(
                    rest.skip(n as int),
                    off as nat + byte_len(rest.take(n as int)),
                ));
                assert(before + (seq![rec] + char_array(
                    rest.skip(n as int),
                    off as nat + byte_len(rest.take(n as int)),
                )) =~= before.push(rec) + char_array(
                    rest.skip(n as int),
                    off as nat + byte_len(rest.take(n as int)),
                ));
                assert(out@ =~= index_run(base.len(), out@.len()));
            }
            off = off + unit_len(n, first, if n == 2 { chars[k + 1] } else { first }, Ghost(off as nat), Ghost(total as nat), Ghost(rest.take(n as int)));
            k = k + n;
        }
        proof {
            assert(s.take(k as int) =~= s);
            assert(s.skip(k as int) =~= Seq::<char>::empty());
        }
        let ghost before = self@;
        let i = self.new_sentinel(off);
        out.push(i);
        proof {
            let rec = CharView { c: Seq::<char>::empty(), offset: off as nat, source: None };
            assert(char_array(Seq::<char>::empty(), off as nat) =~= seq![rec]);
            assert(before + seq![rec] =~= before.push(rec));
            assert(self@ == base + char_array(s, 0));
            assert(out@ =~= index_run(base.len(), out@.len()));
            assert(out@.len() == char_array(s, 0).len());
        }
        out
    }
}

/// Byte length of a unit of one or two characters.
fn unit_len(
    n: usize,
    a: char,
    b: char,
    Ghost(off): Ghost<nat>,
    Ghost(total): Ghost<nat>,
    Ghost(unit): Ghost<Seq<char>>,
) -> (w: usize)
    requires
        n == 1 || n == 2,
        n == 1 ==> unit == seq![a],
        n == 2 ==> unit == seq![a, b],
        off + byte_len(unit) <= total,
        total <= usize::MAX,
    ensures
        w == byte_len(unit),
{
    proof {
        lemma_byte_len_single(a);
        if n == 2 {
            lemma_byte_len_push(seq![a], b);
            assert(seq![a].push(b) =~= seq![a, b]);
        }
    }
    if n == 2 {
        char_width(a) + char_width(b)
    } else {
        char_width(a)
    }
}

/// The text that the records named by `chars` spell: their texts joined in
/// order, terminators left out.
pub fn from_chars(pool: &CharPool, chars: &Vec<usize>) -> (s: String)
    requires
        valid_seq(pool@, chars@),
    ensures
        s@ == flatten(read(pool@, chars@)),
{
    let mut s = String::new();
    let mut k: usize = 0;
    let ghost recs = read(pool@, chars@);
    while k < chars.len()
        invariant
            k <= chars.len(),
            valid_seq(pool@, chars@),
            recs == read(pool@, chars@),
            s@ == flatten(recs.take(k as int)),
        decreases chars.len() - k,
    {
        let rec = pool.get(chars[k]);
        match rec.c() {
            Some(t) => {
                s.append(t);
            },
            None => {
                assert(s@ + recs[k as int].c =~= s@);
            },
        }
        proof {
            assert(recs.take(k + 1).drop_last() =~= recs.take(k as int));
            assert(recs.take(k + 1).last() == recs[k as int]);
        }
        k += 1;
    }
    assert(recs.take(k as int) =~= recs);
    s
}

} // verus!
