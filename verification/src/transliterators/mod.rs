//! The stages of a pipeline and their configurations.

use vstd::prelude::*;
use vstd::string::*;
use crate::chars::{CharPool, CharView};
use crate::dataset::Dataset;
use crate::transliterator::{
    Outcome, TransliterationError, Transliterator, TransliteratorFactory,
    TransliteratorFactoryError,
};

pub mod circled_or_squared;
pub mod hira_kata;
pub mod hira_kata_composition;
pub mod hyphens;
pub mod ivs_svs_base;
pub mod japanese_iteration_marks;
pub mod kana_table;
pub mod jisx0201_and_alike;
pub mod prolonged_sound_marks;
pub mod simple;

pub use circled_or_squared::{
    CircledOrSquaredTransliterator, CircledOrSquaredTransliteratorFactory,
    CircledOrSquaredTransliteratorOptions,
};
pub use hira_kata::{
    HiraKataTransliterator, HiraKataTransliteratorFactory, HiraKataTransliteratorOptions,
    Mode as HiraKataMode,
};
pub use hira_kata_composition::{
    HiraKataCompositionTransliterator, HiraKataCompositionTransliteratorOptions,
};
pub use hyphens::{
    HyphensTransliterationVariant, HyphensTransliterator, HyphensTransliteratorOptions,
};
pub use ivs_svs_base::{
    IvsSvsBaseMode, IvsSvsBaseRecord, IvsSvsBaseTransliterator, IvsSvsBaseTransliteratorOptions,
};
pub use japanese_iteration_marks::{
    JapaneseIterationMarksTransliterator, JapaneseIterationMarksTransliteratorOptions,
};
pub use jisx0201_and_alike::{
    Jisx0201AndAlikeFullwidthToHalfwidthTransliterator,
    Jisx0201AndAlikeFullwidthToHalfwidthTransliteratorFactory,
    Jisx0201AndAlikeHalfwidthToFullwidthTransliterator,
    Jisx0201AndAlikeHalfwidthToFullwidthTransliteratorFactory,
    Jisx0201AndAlikeTransliteratorOptions, MappingsCache,
};
use jisx0201_and_alike::{with_key, CacheView};
pub use prolonged_sound_marks::{
    ProlongedSoundMarksTransliterator, ProlongedSoundMarksTransliteratorOptions,
};
pub use simple::SimpleTransliterator;

verus! {

/// Edition of the character set that an ideograph's base form is taken
/// from.
#[derive(Debug, Clone, Copy, PartialEq, Eq, Structural)]
pub enum Charset {
    Unijis90,
    Unijis2004,
}

impl Default for Charset {
    fn default() -> (r: Self)
        ensures
            r == Charset::Unijis2004,
    {
        Charset::Unijis2004
    }
}

/// The configuration of one stage.
#[derive(Debug, Clone, PartialEq)]
pub enum TransliteratorConfig {
    HiraKata(HiraKataTransliteratorOptions),
    HiraKataComposition(HiraKataCompositionTransliteratorOptions),
    JapaneseIterationMarks(JapaneseIterationMarksTransliteratorOptions),
    Jisx0201AndAlike { fullwidth_to_halfwidth: bool, options: Jisx0201AndAlikeTransliteratorOptions },
    ProlongedSoundMarks(ProlongedSoundMarksTransliteratorOptions),
    Hyphens(HyphensTransliteratorOptions),
    IdeographicAnnotations,
    IvsSvsBase(IvsSvsBaseTransliteratorOptions),
    KanjiOldNew,
    MathematicalAlphanumerics,
    Radicals,
    Spaces,
    Combined,
    CircledOrSquared(CircledOrSquaredTransliteratorOptions),
    RomanNumerals,
}

/// The mathematical value of a [`TransliteratorConfig`].
pub enum ConfigView {
    HiraKata(HiraKataTransliteratorOptions),
    HiraKataComposition(HiraKataCompositionTransliteratorOptions),
    JapaneseIterationMarks,
    Jisx0201AndAlike { fullwidth_to_halfwidth: bool, options: Jisx0201AndAlikeTransliteratorOptions },
    ProlongedSoundMarks(ProlongedSoundMarksTransliteratorOptions),
    Hyphens { precedence: Seq<HyphensTransliterationVariant> },
    IdeographicAnnotations,
    IvsSvsBase(IvsSvsBaseTransliteratorOptions),
    KanjiOldNew,
    MathematicalAlphanumerics,
    Radicals,
    Spaces,
    Combined,
    CircledOrSquared(CircledOrSquaredTransliteratorOptions),
    RomanNumerals,
}

impl View for TransliteratorConfig {
    type V = ConfigView;

    open spec fn view(&self) -> ConfigView {
        match self {
            TransliteratorConfig::HiraKata(o) => ConfigView::HiraKata(*o),
            TransliteratorConfig::HiraKataComposition(o) => ConfigView::HiraKataComposition(*o),
            TransliteratorConfig::JapaneseIterationMarks(_) => ConfigView::JapaneseIterationMarks,
            TransliteratorConfig::Jisx0201AndAlike { fullwidth_to_halfwidth, options } => {
                ConfigView::Jisx0201AndAlike {
                    fullwidth_to_halfwidth: *fullwidth_to_halfwidth,
                    options: *options,
                }
            },
            TransliteratorConfig::ProlongedSoundMarks(o) => ConfigView::ProlongedSoundMarks(*o),
            TransliteratorConfig::Hyphens(o) => ConfigView::Hyphens { precedence: o.precedence@ },
            TransliteratorConfig::IdeographicAnnotations => ConfigView::IdeographicAnnotations,
            TransliteratorConfig::IvsSvsBase(o) => ConfigView::IvsSvsBase(*o),
            TransliteratorConfig::KanjiOldNew => ConfigView::KanjiOldNew,
            TransliteratorConfig::MathematicalAlphanumerics => ConfigView::MathematicalAlphanumerics,
            TransliteratorConfig::Radicals => ConfigView::Radicals,
            TransliteratorConfig::Spaces => ConfigView::Spaces,
            TransliteratorConfig::Combined => ConfigView::Combined,
            TransliteratorConfig::CircledOrSquared(o) => ConfigView::CircledOrSquared(*o),
            TransliteratorConfig::RomanNumerals => ConfigView::RomanNumerals,
        }
    }
}

/// A number for each kind of stage.
pub open spec fn kind_of(c: ConfigView) -> int {
    match c {
        ConfigView::HiraKata(_) => 0,
        ConfigView::HiraKataComposition(_) => 1,
        ConfigView::JapaneseIterationMarks => 2,
        ConfigView::Jisx0201AndAlike { .. } => 3,
        ConfigView::ProlongedSoundMarks(_) => 4,
        ConfigView::Hyphens { .. } => 5,
        ConfigView::IdeographicAnnotations => 6,
        ConfigView::IvsSvsBase(_) => 7,
        ConfigView::KanjiOldNew => 8,
        ConfigView::MathematicalAlphanumerics => 9,
        ConfigView::Radicals => 10,
        ConfigView::Spaces => 11,
        ConfigView::Combined => 12,
        ConfigView::CircledOrSquared(_) => 13,
        ConfigView::RomanNumerals => 14,
    }
}

impl TransliteratorConfig {
    /// The number of the kind of stage that this configuration is for.
    pub fn kind(&self) -> (r: u8)
        ensures
            r == kind_of(self@),
    {
        match self {
            TransliteratorConfig::HiraKata(_) => 0,
            TransliteratorConfig::HiraKataComposition(_) => 1,
            TransliteratorConfig::JapaneseIterationMarks(_) => 2,
            TransliteratorConfig::Jisx0201AndAlike { .. } => 3,
            TransliteratorConfig::ProlongedSoundMarks(_) => 4,
            TransliteratorConfig::Hyphens(_) => 5,
            TransliteratorConfig::IdeographicAnnotations => 6,
            TransliteratorConfig::IvsSvsBase(_) => 7,
            TransliteratorConfig::KanjiOldNew => 8,
            TransliteratorConfig::MathematicalAlphanumerics => 9,
            TransliteratorConfig::Radicals => 10,
            TransliteratorConfig::Spaces => 11,
            TransliteratorConfig::Combined => 12,
            TransliteratorConfig::CircledOrSquared(_) => 13,
            TransliteratorConfig::RomanNumerals => 14,
        }
    }
}

/// The values of a sequence of configurations.
pub open spec fn config_views(configs: Seq<TransliteratorConfig>) -> Seq<ConfigView> {
    configs.map_values(|c: TransliteratorConfig| c@)
}

/// A stage of any of the kinds that the library has.
pub enum AnyTransliterator<'d> {
    HiraKata(HiraKataTransliterator),
    HiraKataComposition(HiraKataCompositionTransliterator),
    JapaneseIterationMarks(JapaneseIterationMarksTransliterator),
    FullwidthToHalfwidth(Jisx0201AndAlikeFullwidthToHalfwidthTransliterator),
    HalfwidthToFullwidth(Jisx0201AndAlikeHalfwidthToFullwidthTransliterator),
    ProlongedSoundMarks(ProlongedSoundMarksTransliterator),
    Hyphens(HyphensTransliterator<'d>),
    IvsSvsBase(IvsSvsBaseTransliterator<'d>),
    CircledOrSquared(CircledOrSquaredTransliterator<'d>),
    Simple(SimpleTransliterator),
}

impl<'d> Transliterator for AnyTransliterator<'d> {
    open spec fn spec_transliterate(&self, pool: Seq<CharView>, input: Seq<usize>) -> Result<Outcome, Seq<char>> {
        match self {
            AnyTransliterator::HiraKata(t) => t.spec_transliterate(pool, input),
            AnyTransliterator::HiraKataComposition(t) => t.spec_transliterate(pool, input),
            AnyTransliterator::JapaneseIterationMarks(t) => t.spec_transliterate(pool, input),
            AnyTransliterator::FullwidthToHalfwidth(t) => t.spec_transliterate(pool, input),
            AnyTransliterator::HalfwidthToFullwidth(t) => t.spec_transliterate(pool, input),
            AnyTransliterator::ProlongedSoundMarks(t) => t.spec_transliterate(pool, input),
            AnyTransliterator::Hyphens(t) => t.spec_transliterate(pool, input),
            AnyTransliterator::IvsSvsBase(t) => t.spec_transliterate(pool, input),
            AnyTransliterator::CircledOrSquared(t) => t.spec_transliterate(pool, input),
            AnyTransliterator::Simple(t) => t.spec_transliterate(pool, input),
        }
    }

    open spec fn keeps_terminator(&self) -> bool {
        match self {
            AnyTransliterator::HiraKata(t) => t.keeps_terminator(),
            AnyTransliterator::HiraKataComposition(t) => t.keeps_terminator(),
            AnyTransliterator::JapaneseIterationMarks(t) => t.keeps_terminator(),
            AnyTransliterator::FullwidthToHalfwidth(t) => t.keeps_terminator(),
            AnyTransliterator::HalfwidthToFullwidth(t) => t.keeps_terminator(),
            AnyTransliterator::ProlongedSoundMarks(t) => t.keeps_terminator(),
            AnyTransliterator::Hyphens(t) => t.keeps_terminator(),
            AnyTransliterator::IvsSvsBase(t) => t.keeps_terminator(),
            AnyTransliterator::CircledOrSquared(t) => t.keeps_terminator(),
            AnyTransliterator::Simple(t) => t.keeps_terminator(),
        }
    }

    fn transliterate(&self, pool: &mut CharPool, input: &Vec<usize>) -> (r: Result<
        Vec<usize>,
        TransliterationError,
    >) {
        match self {
            AnyTransliterator::HiraKata(t) => t.transliterate(pool, input),
            AnyTransliterator::HiraKataComposition(t) => t.transliterate(pool, input),
            AnyTransliterator::JapaneseIterationMarks(t) => t.transliterate(pool, input),
            AnyTransliterator::FullwidthToHalfwidth(t) => t.transliterate(pool, input),
            AnyTransliterator::HalfwidthToFullwidth(t) => t.transliterate(pool, input),
            AnyTransliterator::ProlongedSoundMarks(t) => t.transliterate(pool, input),
            AnyTransliterator::Hyphens(t) => t.transliterate(pool, input),
            AnyTransliterator::IvsSvsBase(t) => t.transliterate(pool, input),
            AnyTransliterator::CircledOrSquared(t) => t.transliterate(pool, input),
            AnyTransliterator::Simple(t) => t.transliterate(pool, input),
        }
    }
}

impl<'d> AnyTransliterator<'d> {
    /// Whether the stage is the one that `config` asks for, working from
    /// the tables of `data`.
    pub open spec fn realizes(&self, config: ConfigView, data: &Dataset) -> bool {
        match config {
            ConfigView::HiraKata(o) => self matches AnyTransliterator::HiraKata(t) && t@ == o,
            ConfigView::HiraKataComposition(o) => self matches AnyTransliterator::HiraKataComposition(
                t,
            ) && t@ == o,
            ConfigView::JapaneseIterationMarks => self is JapaneseIterationMarks,
            ConfigView::Jisx0201AndAlike { fullwidth_to_halfwidth, options } => if fullwidth_to_halfwidth {
                self matches AnyTransliterator::FullwidthToHalfwidth(t) && t@
                    == options.spec_fullwidth_to_halfwidth()
            } else {
                self matches AnyTransliterator::HalfwidthToFullwidth(t) && t@
                    == options.spec_halfwidth_to_fullwidth()
            },
            ConfigView::ProlongedSoundMarks(o) => self matches AnyTransliterator::ProlongedSoundMarks(
                t,
            ) && t@ == o,
            ConfigView::Hyphens { precedence } => self matches AnyTransliterator::Hyphens(t)
                && t.precedence@ == precedence && t.mappings.0 == &data.hyphens,
            ConfigView::IvsSvsBase(o) => self matches AnyTransliterator::IvsSvsBase(t) && t.options
                == o && t.records == &data.ivs_svs_base,
            ConfigView::CircledOrSquared(o) => self matches AnyTransliterator::CircledOrSquared(t)
                && t.include_emojis == o.include_emojis && t.entries == &data.circled_or_squared,
            ConfigView::IdeographicAnnotations => self matches AnyTransliterator::Simple(t)
                && t.table() == *data.ideographic_annotations,
            ConfigView::KanjiOldNew => self matches AnyTransliterator::Simple(t) && t.table() == *data.kanji_old_new,
            ConfigView::MathematicalAlphanumerics => self matches AnyTransliterator::Simple(t)
                && t.table() == *data.mathematical_alphanumerics,
            ConfigView::Radicals => self matches AnyTransliterator::Simple(t) && t.table() == *data.radicals,
            ConfigView::Spaces => self matches AnyTransliterator::Simple(t) && t.table() == *data.spaces,
            ConfigView::Combined => self matches AnyTransliterator::Simple(t) && t.table() == *data.combined,
            ConfigView::RomanNumerals => self matches AnyTransliterator::Simple(t) && t.table() == *data.roman_numerals,
        }
    }
}

/// Each stage is the one that the configuration at its position asks
/// for.
pub open spec fn all_realize<'d>(
    stages: Seq<AnyTransliterator<'d>>,
    configs: Seq<ConfigView>,
    data: &Dataset,
) -> bool {
    &&& stages.len() == configs.len()
    &&& forall|i: int| 0 <= i < stages.len() ==> (#[trigger] stages[i]).realizes(configs[i], data)
}

/// What a cache holds after the stage for `config` was made with it: a
/// width conversion adds the table for its options where the cache did not
/// hold it, and no other stage touches the cache.
pub open spec fn cache_after(cache: CacheView, config: ConfigView) -> CacheView {
    match config {
        ConfigView::Jisx0201AndAlike { fullwidth_to_halfwidth, options } => if fullwidth_to_halfwidth {
            CacheView {
                forward: with_key(cache.forward, options.spec_fullwidth_to_halfwidth()),
                ..cache
            }
        } else {
            CacheView {
                forward: cache.forward,
                reverse: with_key(cache.reverse, options.spec_halfwidth_to_fullwidth()),
                voiced_reverse: with_key(
                    cache.voiced_reverse,
                    options.spec_halfwidth_to_fullwidth(),
                ),
            }
        },
        _ => cache,
    }
}

/// What a cache holds after the stages for `configs` were made with it,
/// one after the other.
pub open spec fn cache_after_all(cache: CacheView, configs: Seq<ConfigView>) -> CacheView
    decreases configs.len(),
{
    if configs.len() == 0 {
        cache
    } else {
        cache_after(cache_after_all(cache, configs.drop_last()), configs.last())
    }
}

fn copy_precedence(precedence: &Vec<HyphensTransliterationVariant>) -> (r: Vec<
    HyphensTransliterationVariant,
>)
    ensures
        r@ == precedence@,
{
    let mut r: Vec<HyphensTransliterationVariant> = Vec::new();
    let mut i: usize = 0;
    while i < precedence.len()
        invariant
            i <= precedence.len(),
            r@ == precedence@.take(i as int),
        decreases precedence.len() - i,
    {
        r.push(precedence[i]);
        assert(r@ =~= precedence@.take(i + 1));
        i += 1;
    }
    assert(r@ =~= precedence@);
    r
}

impl TransliteratorConfig {
    /// The stage that the configuration asks for. The stages that look
    /// characters up work from the tables of `data`, and the width
    /// conversions take their tables from `cache`.
    pub fn new_transliterator<'d>(&self, data: &'d Dataset, cache: &mut MappingsCache) -> (r: Result<
        AnyTransliterator<'d>,
        TransliteratorFactoryError,
    >)
        requires
            data.usable(),
        ensures
            r matches Ok(stage) && stage.realizes(self@, data),
            final(cache)@ == cache_after(old(cache)@, self@),
    {
        match self {
            TransliteratorConfig::HiraKata(options) => Ok(
                AnyTransliterator::HiraKata(HiraKataTransliterator::new(*options)),
            ),
            TransliteratorConfig::HiraKataComposition(options) => Ok(
                AnyTransliterator::HiraKataComposition(
                    HiraKataCompositionTransliterator::new(*options),
                ),
            ),
            TransliteratorConfig::JapaneseIterationMarks(_) => Ok(
                AnyTransliterator::JapaneseIterationMarks(
                    JapaneseIterationMarksTransliterator::new(
                        JapaneseIterationMarksTransliteratorOptions {  },
                    ),
                ),
            ),
            TransliteratorConfig::Jisx0201AndAlike { fullwidth_to_halfwidth, options } => {
                if *fullwidth_to_halfwidth {
                    Ok(
                        AnyTransliterator::FullwidthToHalfwidth(
                            Jisx0201AndAlikeFullwidthToHalfwidthTransliterator::new(
                                options.build_fullwidth_to_halfwidth_options(),
                                cache,
                            ),
                        ),
                    )
                } else {
                    Ok(
                        AnyTransliterator::HalfwidthToFullwidth(
                            Jisx0201AndAlikeHalfwidthToFullwidthTransliterator::new(
                                options.build_halfwidth_to_fullwidth_options(),
                                cache,
                            ),
                        ),
                    )
                }
            },
            TransliteratorConfig::ProlongedSoundMarks(options) => Ok(
                AnyTransliterator::ProlongedSoundMarks(
                    ProlongedSoundMarksTransliterator::new(*options),
                ),
            ),
            TransliteratorConfig::Hyphens(options) => Ok(
                AnyTransliterator::Hyphens(
                    HyphensTransliterator::new(copy_precedence(&options.precedence), &data.hyphens),
                ),
            ),
            TransliteratorConfig::IdeographicAnnotations => Ok(
                AnyTransliterator::Simple(SimpleTransliterator::new(data.ideographic_annotations)),
            ),
            TransliteratorConfig::IvsSvsBase(options) => Ok(
                AnyTransliterator::IvsSvsBase(
                    IvsSvsBaseTransliterator::new(*options, &data.ivs_svs_base),
                ),
            ),
            TransliteratorConfig::KanjiOldNew => Ok(
                AnyTransliterator::Simple(SimpleTransliterator::new(data.kanji_old_new)),
            ),
            TransliteratorConfig::MathematicalAlphanumerics => Ok(
                AnyTransliterator::Simple(
                    SimpleTransliterator::new(data.mathematical_alphanumerics),
                ),
            ),
            TransliteratorConfig::Radicals => Ok(
                AnyTransliterator::Simple(SimpleTransliterator::new(data.radicals)),
            ),
            TransliteratorConfig::Spaces => Ok(
                AnyTransliterator::Simple(SimpleTransliterator::new(data.spaces)),
            ),
            TransliteratorConfig::Combined => Ok(
                AnyTransliterator::Simple(SimpleTransliterator::new(data.combined)),
            ),
            TransliteratorConfig::CircledOrSquared(options) => Ok(
                AnyTransliterator::CircledOrSquared(
                    CircledOrSquaredTransliterator::new(*options, &data.circled_or_squared),
                ),
            ),
            TransliteratorConfig::RomanNumerals => Ok(
                AnyTransliterator::Simple(SimpleTransliterator::new(data.roman_numerals)),
            ),
        }
    }
}

/// The pipeline that `configs` ask for: one stage for each configuration,
/// in order. A pipeline without stages is an error.
pub fn new_transliterators<'d>(
    configs: &Vec<TransliteratorConfig>,
    data: &'d Dataset,
    cache: &mut MappingsCache,
) -> (r: Result<Vec<AnyTransliterator<'d>>, TransliteratorFactoryError>)
    requires
        data.usable(),
    ensures
        r is Err <==> configs@.len() == 0,
        r matches Ok(stages) ==> all_realize(stages@, config_views(configs@), data),
        r matches Err(e) ==> e.message@ == "at least one transliterator must be specified"@,
        final(cache)@ == cache_after_all(old(cache)@, config_views(configs@)),
{
    let mut stages: Vec<AnyTransliterator<'d>> = Vec::new();
    let mut i: usize = 0;
    let ghost views = config_views(configs@);
    while i < configs.len()
        invariant
            i <= configs.len(),
            data.usable(),
            views == config_views(configs@),
            all_realize(stages@, views.take(i as int), data),
            cache@ == cache_after_all(old(cache)@, views.take(i as int)),
        decreases configs.len() - i,
    {
        proof {
            assert(views.take(i + 1).drop_last() =~= views.take(i as int));
            assert(views.take(i + 1).last() == configs@[i as int]@);
        }
        match configs[i].new_transliterator(data, cache) {
            Ok(stage) => {
                stages.push(stage);
            },
            Err(e) => {
                assert(false);
                return Err(e);
            },
        }
        i += 1;
    }
    assert(config_views(configs@).take(i as int) =~= config_views(configs@));
    if stages.len() == 0 {
        return Err(
            TransliteratorFactoryError::new(
                String::from_str("at least one transliterator must be specified"),
            ),
        );
    }
    Ok(stages)
}

/// A configuration, or a recipe, together with the tables that its stages
/// work from, in each of which a look-up comes back.
pub struct WithDataset<'a, 'd, T> {
    subject: &'a T,
    data: &'d Dataset,
}

impl<'a, 'd, T> WithDataset<'a, 'd, T> {
    #[verifier::type_invariant]
    spec fn wf(&self) -> bool {
        self.data.usable()
    }

    /// `subject` together with the tables of `data`.
    pub fn new(subject: &'a T, data: &'d Dataset) -> (r: Self)
        requires
            data.usable(),
        ensures
            r.subject() == subject,
            r.data() == data,
    {
        WithDataset { subject, data }
    }

    /// The configuration or the recipe.
    pub closed spec fn subject(&self) -> &'a T {
        self.subject
    }

    /// The tables.
    pub closed spec fn data(&self) -> &'d Dataset {
        self.data
    }

    /// The configuration or the recipe.
    pub fn get_subject(&self) -> (r: &'a T)
        ensures
            r == self.subject(),
    {
        self.subject
    }

    /// The tables.
    pub fn get_data(&self) -> (r: &'d Dataset)
        ensures
            r == self.data(),
            r.usable(),
    {
        proof {
            use_type_invariant(self);
        }
        self.data
    }
}

/// A configuration with its tables makes the stage that it asks for. A
/// width conversion gets a table of its own; to share the tables among
/// stages, hand a cache to [`TransliteratorConfig::new_transliterator`].
impl<'a, 'd> TransliteratorFactory for WithDataset<'a, 'd, TransliteratorConfig> {
    type Output = AnyTransliterator<'d>;

    open spec fn makes(&self, stage: AnyTransliterator<'d>) -> bool {
        stage.realizes(self.subject()@, self.data())
    }

    fn new_transliterator(&self) -> (r: Result<AnyTransliterator<'d>, TransliteratorFactoryError>) {
        let mut cache = MappingsCache::new();
        self.get_subject().new_transliterator(self.get_data(), &mut cache)
    }
}

} // verus!
