//! The stage interface, the rewrite that every built-in stage performs, and
//! the composition of stages into a pipeline.

use vstd::prelude::*;
use vstd::string::*;
use crate::chars::{origins_precede, read, terminated, valid_seq, CharPool, CharView};
use crate::text::{byte_len, str_byte_len};

verus! {

/// Raised while a pipeline is applied to a text.
#[derive(Debug)]
pub enum TransliterationError {
    Failed(String),
}

impl TransliterationError {
    /// What has failed.
    pub open spec fn message(&self) -> Seq<char> {
        self->0@
    }

    /// The message that describes the error.
    pub fn to_string(&self) -> (s: String)
        ensures
            s@ == "Transliteration failed: "@ + self.message(),
    {
        let TransliterationError::Failed(m) = self;
        let mut s = String::from_str("Transliteration failed: ");
        s.append(m.as_str());
        s
    }
}

/// Raised while a pipeline is put together.
#[derive(Debug)]
pub struct TransliteratorFactoryError {
    /// What has gone wrong.
    pub message: String,
    /// What the error that lies behind this one says, where there is one.
    pub source: Option<String>,
}

impl TransliteratorFactoryError {
    /// An error with the given message and nothing behind it.
    pub fn new(message: String) -> (e: Self)
        ensures
            e.message@ == message@,
            e.source is None,
    {
        TransliteratorFactoryError { message, source: None }
    }

    /// An error with the given message, raised because of another error
    /// that says `source`.
    pub fn with_source(message: &str, source: &str) -> (e: Self)
        ensures
            e.message@ == message@,
            e.source matches Some(s) && s@ == source@,
    {
        TransliteratorFactoryError {
            message: String::from_str(message),
            source: Some(String::from_str(source)),
        }
    }

    /// The message that describes the error.
    pub fn to_string(&self) -> (s: String)
        ensures
            s@ == "Failed to create a transliterator: "@ + self.message@,
    {
        let mut s = String::from_str("Failed to create a transliterator: ");
        s.append(self.message.as_str());
        s
    }
}

/// One step of a rewrite. `origin` is a position in the input sequence.
pub enum Edit {
    /// The input record at `origin` goes to the output as it is.
    Keep { origin: usize },
    /// A new record with text `text` that derives from the input record at
    /// `origin`.
    Put { text: String, origin: usize },
}

/// The mathematical value of an [`Edit`].
pub enum EditView {
    Keep { origin: usize },
    Put { text: Seq<char>, origin: usize },
}

impl View for Edit {
    type V = EditView;

    open spec fn view(&self) -> EditView {
        match self {
            Edit::Keep { origin } => EditView::Keep { origin: *origin },
            Edit::Put { text, origin } => EditView::Put { text: text@, origin: *origin },
        }
    }
}

impl EditView {
    /// The position in the input of the record that the edit derives from.
    pub open spec fn origin(self) -> usize {
        match self {
            EditView::Keep { origin } => origin,
            EditView::Put { origin, .. } => origin,
        }
    }
}

/// The values of a sequence of edits.
pub open spec fn edit_views(edits: Seq<Edit>) -> Seq<EditView> {
    edits.map_values(|e: Edit| e@)
}

/// Every edit names a position of an input of `n` records.
pub open spec fn edits_in_range(edits: Seq<EditView>, n: nat) -> bool {
    forall|k: int| 0 <= k < edits.len() ==> (#[trigger] edits[k]).origin() < n
}

/// A pool together with a sequence of its records.
pub struct Outcome {
    pub pool: Seq<CharView>,
    pub out: Seq<usize>,
}

/// What a rewrite has produced so far.
pub struct Applied {
    pub pool: Seq<CharView>,
    pub out: Seq<usize>,
    /// Bytes of text produced so far: the offset of the next record.
    pub offset: nat,
}

/// The result of performing `edits` on `input` in order. A kept record is
/// the input's own; a new record is added to the pool with the given text,
/// at the byte offset that the texts produced before it add up to, deriving
/// from the input record it names.
pub open spec fn apply_edits(pool: Seq<CharView>, input: Seq<usize>, edits: Seq<EditView>) -> Applied
    decreases edits.len(),
{
    if edits.len() == 0 {
        Applied { pool, out: Seq::<usize>::empty(), offset: 0 }
    } else {
        let prev = apply_edits(pool, input, edits.drop_last());
        match edits.last() {
            EditView::Keep { origin } => Applied {
                pool: prev.pool,
                out: prev.out.push(input[origin as int]),
                offset: prev.offset + byte_len(pool[input[origin as int] as int].c),
            },
            EditView::Put { text, origin } => Applied {
                pool: prev.pool.push(
                    CharView { c: text, offset: prev.offset, source: Some(input[origin as int]) },
                ),
                out: prev.out.push(prev.pool.len() as usize),
                offset: prev.offset + byte_len(text),
            },
        }
    }
}

/// What a rewrite says where the text it produces is longer than an
/// offset can say.
pub open spec fn too_long() -> Seq<char> {
    "text too long"@
}

/// The outcome of a rewrite, or [`too_long`] where the text it produces
/// is longer than an offset can say.
pub open spec fn rewrite(pool: Seq<CharView>, input: Seq<usize>, edits: Seq<EditView>) -> Result<
    Outcome,
    Seq<char>,
> {
    let a = apply_edits(pool, input, edits);
    if a.offset <= usize::MAX {
        Ok(Outcome { pool: a.pool, out: a.out })
    } else {
        Err(too_long())
    }
}

/// The records that a rewrite puts out, read from the pool it leaves.
pub open spec fn rewritten(pool: Seq<CharView>, input: Seq<usize>, edits: Seq<EditView>) -> Seq<
    CharView,
> {
    let a = apply_edits(pool, input, edits);
    read(a.pool, a.out)
}

/// A rewrite only adds records, each deriving from an older one, and its
/// output names records of the pool it leaves.
pub proof fn lemma_apply_edits(pool: Seq<CharView>, input: Seq<usize>, edits: Seq<EditView>)
    requires
        origins_precede(pool),
        valid_seq(pool, input),
        edits_in_range(edits, input.len()),
        apply_edits(pool, input, edits).pool.len() <= usize::MAX,
    ensures
        pool.is_prefix_of(apply_edits(pool, input, edits).pool),
        apply_edits(pool, input, edits).pool.len() <= pool.len() + edits.len(),
        apply_edits(pool, input, edits).out.len() == edits.len(),
        origins_precede(apply_edits(pool, input, edits).pool),
        valid_seq(apply_edits(pool, input, edits).pool, apply_edits(pool, input, edits).out),
    decreases edits.len(),
{
    if edits.len() > 0 {
        let before = edits.drop_last();
        assert(edits_in_range(before, input.len())) by {
            assert forall|k: int| 0 <= k < before.len() implies (#[trigger] before[k]).origin()
                < input.len() by {
                assert(before[k] == edits[k]);
            }
        }
        lemma_apply_edits(pool, input, before);
        let prev = apply_edits(pool, input, before);
        let a = apply_edits(pool, input, edits);
        let o = edits.last().origin();
        assert(edits[edits.len() - 1].origin() < input.len());
        assert(input[o as int] < pool.len());
        assert(valid_seq(a.pool, a.out)) by {
            assert forall|k: int| 0 <= k < a.out.len() implies (#[trigger] a.out[k])
                < a.pool.len() by {
                if k < prev.out.len() {
                    assert(a.out[k] == prev.out[k]);
                }
            }
        }
    }
}

/// The text of the record that edit `e` puts out.
pub open spec fn edit_text(pool: Seq<CharView>, input: Seq<usize>, e: EditView) -> Seq<char> {
    match e {
        EditView::Keep { origin } => pool[input[origin as int] as int].c,
        EditView::Put { text, .. } => text,
    }
}

/// The record that each edit puts out has the edit's text.
pub proof fn lemma_rewritten_texts(pool: Seq<CharView>, input: Seq<usize>, edits: Seq<EditView>)
    requires
        origins_precede(pool),
        valid_seq(pool, input),
        edits_in_range(edits, input.len()),
        apply_edits(pool, input, edits).pool.len() <= usize::MAX,
    ensures
        rewritten(pool, input, edits).len() == edits.len(),
        forall|k: int|
            0 <= k < edits.len() ==> (#[trigger] rewritten(pool, input, edits)[k]).c == edit_text(
                pool,
                input,
                edits[k],
            ),
    decreases edits.len(),
{
    lemma_apply_edits(pool, input, edits);
    if edits.len() > 0 {
        let before = edits.drop_last();
        assert(edits_in_range(before, input.len())) by {
            assert forall|k: int| 0 <= k < before.len() implies (#[trigger] before[k]).origin()
                < input.len() by {
                assert(before[k] == edits[k]);
            }
        }
        lemma_rewritten_texts(pool, input, before);
        lemma_apply_edits(pool, input, before);
        let prev = apply_edits(pool, input, before);
        let a = apply_edits(pool, input, edits);
        let last = edits.len() - 1;
        assert(edits[last].origin() < input.len());
        assert forall|k: int| 0 <= k < edits.len() implies (#[trigger] rewritten(
            pool,
            input,
            edits,
        )[k]).c == edit_text(pool, input, edits[k]) by {
            if k < last {
                assert(a.out[k] == prev.out[k]);
                assert(prev.out[k] < prev.pool.len());
                assert(a.pool[a.out[k] as int] == prev.pool[prev.out[k] as int]);
                assert(rewritten(pool, input, before)[k] == prev.pool[prev.out[k] as int]);
                assert(before[k] == edits[k]);
            } else {
                match edits[last] {
                    EditView::Keep { origin } => {
                        assert(input[origin as int] < pool.len());
                        assert(a.pool[input[origin as int] as int] == pool[input[origin as int] as int]);
                    },
                    EditView::Put { .. } => {},
                }
            }
        }
    }
}

/// A successful rewrite puts out one record for each edit, in order, with
/// the edit's text.
pub proof fn lemma_outcome_texts(
    pool: Seq<CharView>,
    input: Seq<usize>,
    edits: Seq<EditView>,
    after: Seq<CharView>,
    out: Seq<usize>,
)
    requires
        origins_precede(pool),
        valid_seq(pool, input),
        edits_in_range(edits, input.len()),
        after.len() <= usize::MAX,
        rewrite(pool, input, edits) == Ok::<Outcome, Seq<char>>(Outcome { pool: after, out }),
    ensures
        out.len() == edits.len(),
        forall|k: int|
            0 <= k < edits.len() ==> (#[trigger] read(after, out)[k]).c == edit_text(
                pool,
                input,
                edits[k],
            ),
{
    lemma_rewritten_texts(pool, input, edits);
    assert(read(after, out) == rewritten(pool, input, edits));
}

/// The edits keep the input's terminator as the last record of the output
/// and give every other record of the output a text.
pub open spec fn closes_with_terminator(n: nat, edits: Seq<EditView>) -> bool {
    &&& n > 0
    &&& edits.len() > 0
    &&& edits.last() == (EditView::Keep { origin: (n - 1) as usize })
    &&& forall|k: int|
        0 <= k < edits.len() - 1 ==> ((#[trigger] edits[k]) matches EditView::Put { text, .. }
            && text.len() > 0)
}

/// A rewrite of a sequence that ends with its only terminator, by edits
/// that close with it, gives a sequence that ends with its only terminator.
pub proof fn lemma_rewrite_terminated(pool: Seq<CharView>, input: Seq<usize>, edits: Seq<EditView>)
    requires
        origins_precede(pool),
        valid_seq(pool, input),
        edits_in_range(edits, input.len()),
        apply_edits(pool, input, edits).pool.len() <= usize::MAX,
        input.len() <= usize::MAX,
        terminated(read(pool, input)),
        closes_with_terminator(input.len(), edits),
    ensures
        terminated(rewritten(pool, input, edits)),
{
    lemma_rewritten_texts(pool, input, edits);
    let out = rewritten(pool, input, edits);
    let last = edits.len() - 1;
    assert(out[last].c == edit_text(pool, input, edits[last]));
    assert(read(pool, input)[input.len() - 1].is_sentinel());
    assert(read(pool, input)[input.len() - 1] == pool[input[input.len() - 1] as int]);
    assert(out.last() == out[last]);
    assert forall|k: int| 0 <= k < out.len() - 1 implies !(#[trigger] out[k]).is_sentinel() by {
        assert(out[k].c == edit_text(pool, input, edits[k]));
    }
}

/// The edits of a stage that rewrites record by record: a terminator is
/// kept, and any other record gives way to one with the text that `f` has
/// for it.
pub open spec fn map_edits(chars: Seq<CharView>, f: spec_fn(CharView) -> Seq<char>) -> Seq<
    EditView,
> {
    Seq::new(
        chars.len(),
        |k: int|
            if chars[k].is_sentinel() {
                EditView::Keep { origin: k as usize }
            } else {
                EditView::Put { text: f(chars[k]), origin: k as usize }
            },
    )
}

/// A record-by-record rewrite that never gives an empty text keeps the
/// terminator where it is and adds none.
pub proof fn lemma_map_edits_terminated(
    pool: Seq<CharView>,
    input: Seq<usize>,
    f: spec_fn(CharView) -> Seq<char>,
)
    requires
        origins_precede(pool),
        valid_seq(pool, input),
        apply_edits(pool, input, map_edits(read(pool, input), f)).pool.len() <= usize::MAX,
        input.len() <= usize::MAX,
        terminated(read(pool, input)),
        forall|ch: CharView| !ch.is_sentinel() ==> (#[trigger] f(ch)).len() > 0,
    ensures
        terminated(rewritten(pool, input, map_edits(read(pool, input), f))),
{
    let chars = read(pool, input);
    let edits = map_edits(chars, f);
    assert(edits_in_range(edits, input.len()));
    assert(closes_with_terminator(input.len(), edits)) by {
        assert(chars[chars.len() - 1].is_sentinel());
        assert forall|k: int| 0 <= k < edits.len() - 1 implies ((#[trigger] edits[k]) matches EditView::Put {
            text,
            ..
        } && text.len() > 0) by {
            assert(!chars[k].is_sentinel());
        }
    }
    lemma_rewrite_terminated(pool, input, edits);
}

/// Every edit makes a new record with a text that is not empty.
pub open spec fn all_put(edits: Seq<EditView>) -> bool {
    forall|k: int|
        0 <= k < edits.len() ==> ((#[trigger] edits[k]) matches EditView::Put { text, .. }
            && text.len() > 0)
}

/// Edits that make nothing but records with text, followed by the edit
/// that keeps the terminator, close with the terminator.
pub proof fn lemma_closes(n: nat, body: Seq<EditView>)
    requires
        n > 0,
        all_put(body),
    ensures
        closes_with_terminator(n, body.push(EditView::Keep { origin: (n - 1) as usize })),
{
    let edits = body.push(EditView::Keep { origin: (n - 1) as usize });
    assert forall|k: int| 0 <= k < edits.len() - 1 implies ((#[trigger] edits[k]) matches EditView::Put {
        text,
        ..
    } && text.len() > 0) by {
        assert(edits[k] == body[k]);
    }
}

/// What a stage owes where its edits close with the terminator: the
/// sequence that a successful rewrite leaves ends with its only terminator.
pub proof fn lemma_outcome_terminated(
    pool: Seq<CharView>,
    input: Seq<usize>,
    edits: Seq<EditView>,
    after: Seq<CharView>,
    out: Seq<usize>,
)
    requires
        origins_precede(pool),
        valid_seq(pool, input),
        edits_in_range(edits, input.len()),
        input.len() <= usize::MAX,
        after.len() <= usize::MAX,
        rewrite(pool, input, edits) == Ok::<Outcome, Seq<char>>(Outcome { pool: after, out }),
        terminated(read(pool, input)),
        closes_with_terminator(input.len(), edits),
    ensures
        terminated(read(after, out)),
{
    lemma_rewrite_terminated(pool, input, edits);
}

/// The same for a stage that rewrites record by record and never gives an
/// empty text.
pub proof fn lemma_map_outcome_terminated(
    pool: Seq<CharView>,
    input: Seq<usize>,
    f: spec_fn(CharView) -> Seq<char>,
    after: Seq<CharView>,
    out: Seq<usize>,
)
    requires
        origins_precede(pool),
        valid_seq(pool, input),
        input.len() <= usize::MAX,
        after.len() <= usize::MAX,
        rewrite(pool, input, map_edits(read(pool, input), f)) == Ok::<Outcome, Seq<char>>(
            Outcome { pool: after, out },
        ),
        terminated(read(pool, input)),
        forall|ch: CharView| !ch.is_sentinel() ==> (#[trigger] f(ch)).len() > 0,
    ensures
        terminated(read(after, out)),
{
    lemma_map_edits_terminated(pool, input, f);
}

/// Performs `edits` on `input`, adding the new records to `pool`.
///
/// Fails when the text produced is longer than an offset can say.
pub fn apply(pool: &mut CharPool, input: &Vec<usize>, edits: Vec<Edit>) -> (r: Result<
    Vec<usize>,
    TransliterationError,
>)
    requires
        old(pool).wf(),
        valid_seq(old(pool)@, input@),
        edits_in_range(edit_views(edits@), input@.len()),
    ensures
        final(pool).wf(),
        old(pool)@.is_prefix_of(final(pool)@),
        final(pool)@.len() <= usize::MAX,
        r matches Ok(out) ==> valid_seq(final(pool)@, out@) && rewrite(
            old(pool)@,
            input@,
            edit_views(edits@),
        ) == Ok::<Outcome, Seq<char>>(Outcome { pool: final(pool)@, out: out@ }),
        r matches Err(e) ==> rewrite(old(pool)@, input@, edit_views(edits@)) == Err::<
            Outcome,
            Seq<char>,
        >(e.message()),
{
    let ghost base = pool@;
    let ghost evs = edit_views(edits@);
    let mut out: Vec<usize> = Vec::new();
    let mut offset: usize = 0;
    let mut k: usize = 0;
    proof {
        assert(evs.take(0) =~= Seq::<EditView>::empty());
    }
    while k < edits.len()
        invariant
            k <= edits.len(),
            base == old(pool)@,
            evs == edit_views(edits@),
            edits_in_range(evs, input@.len()),
            valid_seq(base, input@),
            origins_precede(base),
            pool.wf(),
            base.is_prefix_of(pool@),
            valid_seq(pool@, out@),
            apply_edits(base, input@, evs.take(k as int)) == (Applied {
                pool: pool@,
                out: out@,
                offset: offset as nat,
            }),
        decreases edits.len() - k,
    {
        let ghost prev = apply_edits(base, input@, evs.take(k as int));
        proof {
            assert(evs.take(k + 1).drop_last() =~= evs.take(k as int));
            assert(evs.take(k + 1).last() == evs[k as int]);
            assert(evs[k as int] == edits@[k as int]@);
            assert(evs[k as int].origin() < input@.len());
        }
        let ghost next = apply_edits(base, input@, evs.take(k + 1));
        match &edits[k] {
            Edit::Keep { origin } => {
                let idx = input[*origin];
                let len = str_byte_len(pool.get(idx).c.as_str());
                assert(pool@[idx as int] == base[idx as int]);
                match offset.checked_add(len) {
                    Some(o) => {
                        out.push(idx);
                        offset = o;
                    },
                    None => {
                        proof {
                            lemma_offsets_grow(base, input@, evs, k + 1);
                        }
                        // Reading the length tells the proof that it fits a `usize`.
                        let n = pool.len();
                        return Err(
                            TransliterationError::Failed(String::from_str("text too long")),
                        );
                    },
                }
            },
            Edit::Put { text, origin } => {
                let len = str_byte_len(text.as_str());
                match offset.checked_add(len) {
                    Some(o) => {
                        let idx = pool.new_char_from(text.clone(), offset, input[*origin]);
                        out.push(idx);
                        offset = o;
                    },
                    None => {
                        proof {
                            lemma_offsets_grow(base, input@, evs, k + 1);
                        }
                        // Reading the length tells the proof that it fits a `usize`.
                        let n = pool.len();
                        return Err(
                            TransliterationError::Failed(String::from_str("text too long")),
                        );
                    },
                }
            },
        }
        proof {
            assert(next.pool == pool@);
            assert(next.out == out@);
        }
        k += 1;
    }
    proof {
        assert(evs.take(k as int) =~= evs);
    }
    // Reading the length tells the proof that it fits a `usize`.
    let n = pool.len();
    Ok(out)
}

/// Offsets only grow along a rewrite.
pub proof fn lemma_offsets_grow(
    pool: Seq<CharView>,
    input: Seq<usize>,
    edits: Seq<EditView>,
    k: int,
)
    requires
        0 <= k <= edits.len(),
    ensures
        apply_edits(pool, input, edits.take(k)).offset <= apply_edits(pool, input, edits).offset,
    decreases edits.len() - k,
{
    if k < edits.len() {
        lemma_offsets_grow(pool, input, edits, k + 1);
        assert(edits.take(k + 1).drop_last() =~= edits.take(k));
    } else {
        assert(edits.take(k) =~= edits);
    }
}

/// A stage of a pipeline: it reads a sequence of records of a pool and
/// gives the sequence that takes its place, adding to the pool the records
/// it makes.
pub trait Transliterator {
    /// What the stage does to `input`, a sequence of records of `pool`:
    /// the pool and the sequence it leaves, or, where it fails, what the
    /// error says has failed.
    open spec fn spec_transliterate(&self, pool: Seq<CharView>, input: Seq<usize>) -> Result<Outcome, Seq<char>> {
        Err(Seq::<char>::empty())
    }

    /// Whether the stage, given a sequence that ends with its only
    /// terminator, gives a sequence that ends with its only terminator.
    open spec fn keeps_terminator(&self) -> bool {
        false
    }

    fn transliterate(&self, pool: &mut CharPool, input: &Vec<usize>) -> (r: Result<
        Vec<usize>,
        TransliterationError,
    >)
        requires
            old(pool).wf(),
            valid_seq(old(pool)@, input@),
        ensures
            final(pool).wf(),
            old(pool)@.is_prefix_of(final(pool)@),
            r matches Ok(out) ==> valid_seq(final(pool)@, out@) && self.spec_transliterate(
                old(pool)@,
                input@,
            ) == Ok::<Outcome, Seq<char>>(Outcome { pool: final(pool)@, out: out@ }),
            r matches Err(e) ==> self.spec_transliterate(old(pool)@, input@) == Err::<
                Outcome,
                Seq<char>,
            >(e.message()),
            r matches Ok(out) ==> (self.keeps_terminator() && terminated(read(old(pool)@, input@))
                ==> terminated(read(final(pool)@, out@))),
    ;
}

/// What a chain of stages does: each stage works on what the stage before
/// it has left, and the first failure ends the run with the error of the
/// stage that failed. An empty chain leaves its input as it is.
pub open spec fn chain_run<T: Transliterator>(
    stages: Seq<T>,
    pool: Seq<CharView>,
    input: Seq<usize>,
) -> Result<Outcome, Seq<char>>
    decreases stages.len(),
{
    if stages.len() == 0 {
        Ok(Outcome { pool, out: input })
    } else {
        match chain_run(stages.drop_last(), pool, input) {
            Ok(o) => stages.last().spec_transliterate(o.pool, o.out),
            Err(e) => Err(e),
        }
    }
}

impl<T: Transliterator> Transliterator for Vec<T> {
    open spec fn spec_transliterate(&self, pool: Seq<CharView>, input: Seq<usize>) -> Result<Outcome, Seq<char>> {
        chain_run(self@, pool, input)
    }

    open spec fn keeps_terminator(&self) -> bool {
        forall|i: int| 0 <= i < self@.len() ==> (#[trigger] self@[i]).keeps_terminator()
    }

    fn transliterate(&self, pool: &mut CharPool, input: &Vec<usize>) -> (r: Result<
        Vec<usize>,
        TransliterationError,
    >) {
        let ghost base = pool@;
        let mut cur: Vec<usize> = input.clone();
        assert(cur@ =~= input@);
        assert(read(pool@, cur@) =~= read(pool@, input@));
        let mut k: usize = 0;
        proof {
            assert(self@.take(0) =~= Seq::<T>::empty());
        }
        while k < self.len()
            invariant
                k <= self.len(),
                base == old(pool)@,
                pool.wf(),
                base.is_prefix_of(pool@),
                valid_seq(pool@, cur@),
                chain_run(self@.take(k as int), base, input@) == Ok::<Outcome, Seq<char>>(
                    Outcome { pool: pool@, out: cur@ },
                ),
                self.keeps_terminator() && terminated(read(base, input@)) ==> terminated(
                    read(pool@, cur@),
                ),
            decreases self.len() - k,
        {
            proof {
                assert(self@.take(k + 1).drop_last() =~= self@.take(k as int));
                assert(self@.take(k + 1).last() == self@[k as int]);
            }
            match self[k].transliterate(pool, &cur) {
                Ok(next) => {
                    cur = next;
                },
                Err(e) => {
                    proof {
                        lemma_chain_fails(self@, base, input@, k + 1);
                    }
                    return Err(e);
                },
            }
            k += 1;
        }
        proof {
            assert(self@.take(k as int) =~= self@);
        }
        Ok(cur)
    }
}

/// Once a prefix of a chain has failed, the chain fails with the same
/// error.
pub proof fn lemma_chain_fails<T: Transliterator>(
    stages: Seq<T>,
    pool: Seq<CharView>,
    input: Seq<usize>,
    k: int,
)
    requires
        0 <= k <= stages.len(),
        chain_run(stages.take(k), pool, input) is Err,
    ensures
        chain_run(stages, pool, input) == chain_run(stages.take(k), pool, input),
    decreases stages.len() - k,
{
    if k < stages.len() {
        assert(stages.take(k + 1).drop_last() =~= stages.take(k));
        lemma_chain_fails(stages, pool, input, k + 1);
    } else {
        assert(stages.take(k) =~= stages);
    }
}

/// Something that a stage can be made from.
pub trait TransliteratorFactory {
    /// The kind of stage that is made.
    type Output: Transliterator;

    /// Whether no stage can be made.
    open spec fn fails(&self) -> bool {
        false
    }

    /// Whether `stage` is the stage that is to be made.
    open spec fn makes(&self, stage: Self::Output) -> bool {
        true
    }

    fn new_transliterator(&self) -> (r: Result<Self::Output, TransliteratorFactoryError>)
        ensures
            r is Err <==> self.fails(),
            r matches Ok(stage) ==> self.makes(stage),
    ;
}

/// Whether one of the first `n` factories can make no stage.
pub open spec fn any_fails<I: TransliteratorFactory>(factories: Seq<I>, n: int) -> bool
    decreases n,
{
    if n <= 0 {
        false
    } else {
        any_fails(factories, n - 1) || factories[n - 1].fails()
    }
}

/// A list of factories makes the chain of the stages that its factories
/// make, in order. A list without factories makes nothing: an empty pipeline
/// is an error.
impl<I: TransliteratorFactory> TransliteratorFactory for Vec<I> {
    type Output = Vec<I::Output>;

    open spec fn fails(&self) -> bool {
        self@.len() == 0 || any_fails(self@, self@.len() as int)
    }

    open spec fn makes(&self, stage: Vec<I::Output>) -> bool {
        &&& stage@.len() == self@.len()
        &&& forall|i: int| 0 <= i < self@.len() ==> (#[trigger] self@[i]).makes(stage@[i])
    }

    fn new_transliterator(&self) -> (r: Result<Vec<I::Output>, TransliteratorFactoryError>) {
        let mut stages: Vec<I::Output> = Vec::new();
        let mut i: usize = 0;
        while i < self.len()
            invariant
                i <= self.len(),
                stages@.len() == i,
                !any_fails(self@, i as int),
                forall|j: int| 0 <= j < i ==> (#[trigger] self@[j]).makes(stages@[j]),
            decreases self.len() - i,
        {
            match self[i].new_transliterator() {
                Ok(stage) => {
                    stages.push(stage);
                },
                Err(e) => {
                    proof {
                        lemma_any_fails(self@, i + 1);
                    }
                    return Err(e);
                },
            }
            i += 1;
        }
        if stages.len() == 0 {
            return Err(
                TransliteratorFactoryError::new(
                    String::from_str("at least one transliterator must be specified"),
                ),
            );
        }
        Ok(stages)
    }
}

/// Where one of the first `k` factories fails, one of them all fails.
pub proof fn lemma_any_fails<I: TransliteratorFactory>(factories: Seq<I>, k: int)
    requires
        0 <= k <= factories.len(),
        any_fails(factories, k),
    ensures
        any_fails(factories, factories.len() as int),
    decreases factories.len() - k,
{
    if k < factories.len() {
        lemma_any_fails(factories, k + 1);
    }
}

} // verus!
