//! Normalization of Japanese text: a recipe of named options resolves
//! into a pipeline of stages, and the pipeline rewrites a text character
//! by character, each character keeping track of where it came from.

use vstd::prelude::*;
use vstd::string::*;

pub mod chars;
pub mod codegen;
pub mod dataset;
pub mod recipes;
pub mod text;
pub mod transliterator;
pub mod transliterators;

pub use crate::chars::{from_chars, Char, CharPool};
pub use crate::dataset::Dataset;
pub use crate::recipes::TransliterationRecipe;
use crate::recipes::conflict_message;
pub use crate::transliterator::{
    TransliterationError, Transliterator, TransliteratorFactory, TransliteratorFactoryError,
};
pub use crate::transliterators::{
    AnyTransliterator, MappingsCache, TransliteratorConfig, WithDataset,
};

use crate::chars::{char_array, flatten, index_run, read, CharView};
use crate::transliterators::{all_realize, cache_after_all, config_views, new_transliterators};

verus! {

/// A pipeline that is ready to be applied to texts.
pub struct StringTransliterator<T: Transliterator> {
    pub stage: T,
}

/// What `stage` makes of `text`: the text that the records spell which
/// the stage leaves, or, where it fails, what the error says has failed.
pub open spec fn transliterated<T: Transliterator>(stage: T, text: Seq<char>) -> Result<
    Seq<char>,
    Seq<char>,
> {
    let initial = char_array(text, 0);
    match stage.spec_transliterate(initial, index_run(0, initial.len())) {
        Ok(o) => Ok(flatten(read(o.pool, o.out))),
        Err(e) => Err(e),
    }
}

impl<T: Transliterator> StringTransliterator<T> {
    /// Applies the pipeline to `input`: the text is cut into records, the
    /// records go through the stage, or through every stage of a chain in
    /// order, and what is left is joined into a text again. The first stage
    /// that fails ends the run, and its error is the error of the run.
    pub fn transliterate(&self, input: &str) -> (r: Result<String, TransliterationError>)
        ensures
            match transliterated(self.stage, input@) {
                Ok(text) => r matches Ok(s) && s@ == text,
                Err(message) => r matches Err(e) && e.message() == message,
            },
    {
        let mut pool = CharPool::new();
        let chars = pool.build_char_array(input);
        assert(pool@ =~= char_array(input@, 0));
        match self.stage.transliterate(&mut pool, &chars) {
            Ok(out) => Ok(from_chars(&pool, &out)),
            Err(e) => Err(e),
        }
    }
}

/// The pipeline that `factory` makes, ready to be applied to texts.
pub fn make_transliterator<F: TransliteratorFactory>(factory: &F) -> (r: Result<
    StringTransliterator<F::Output>,
    TransliteratorFactoryError,
>)
    ensures
        r is Err <==> factory.fails(),
        r matches Ok(t) ==> factory.makes(t.stage),
{
    match factory.new_transliterator() {
        Ok(stage) => Ok(StringTransliterator { stage }),
        Err(e) => Err(e),
    }
}

impl TransliterationRecipe {
    /// The pipeline that the recipe resolves into, its stages working from
    /// the tables of `data` and the width conversions taking their tables
    /// from `cache`. Fails where the recipe asks for both widths, and where
    /// it asks for nothing.
    pub fn new_transliterator<'d>(&self, data: &'d Dataset, cache: &mut MappingsCache) -> (r: Result<
        StringTransliterator<Vec<AnyTransliterator<'d>>>,
        TransliteratorFactoryError,
    >)
        requires
            data.usable(),
        ensures
            r is Err <==> self.spec_conflict() || self.spec_build().len() == 0,
            r matches Err(e) ==> e.message@ == (if self.spec_conflict() {
                conflict_message()
            } else {
                "at least one transliterator must be specified"@
            }),
            r matches Ok(t) ==> all_realize(t.stage@, self.spec_build(), data),
            !self.spec_conflict() ==> final(cache)@ == cache_after_all(
                old(cache)@,
                self.spec_build(),
            ),
            self.spec_conflict() ==> final(cache)@ == old(cache)@,
    {
        match self.build() {
            Ok(configs) => match new_transliterators(&configs, data, cache) {
                Ok(stage) => Ok(StringTransliterator { stage }),
                Err(e) => Err(e),
            },
            Err(e) => Err(e),
        }
    }
}

/// A recipe with its tables makes the pipeline that it resolves into. The
/// width conversions get tables of their own; to share the tables among
/// pipelines, hand a cache to [`TransliterationRecipe::new_transliterator`].
impl<'a, 'd> TransliteratorFactory for WithDataset<'a, 'd, TransliterationRecipe> {
    type Output = Vec<AnyTransliterator<'d>>;

    open spec fn fails(&self) -> bool {
        self.subject().spec_conflict() || self.subject().spec_build().len() == 0
    }

    open spec fn makes(&self, stage: Vec<AnyTransliterator<'d>>) -> bool {
        all_realize(stage@, self.subject().spec_build(), self.data())
    }

    fn new_transliterator(&self) -> (r: Result<
        Vec<AnyTransliterator<'d>>,
        TransliteratorFactoryError,
    >) {
        let mut cache = MappingsCache::new();
        match self.get_subject().new_transliterator(self.get_data(), &mut cache) {
            Ok(t) => Ok(t.stage),
            Err(e) => Err(e),
        }
    }
}

} // verus!
