//! Recipes: a set of named options that resolves into an ordered list of
//! stage configurations.

use vstd::prelude::*;
use vstd::string::*;
use itertools::Itertools;
use crate::text::{join, join_texts, string_views};
use crate::transliterator::TransliteratorFactoryError;
use crate::transliterators::{
    config_views, kind_of, Charset, CircledOrSquaredTransliteratorOptions, ConfigView,
    HiraKataCompositionTransliteratorOptions, HiraKataMode, HiraKataTransliteratorOptions,
    HyphensTransliterationVariant, HyphensTransliteratorOptions, IvsSvsBaseMode,
    IvsSvsBaseTransliteratorOptions, JapaneseIterationMarksTransliteratorOptions,
    Jisx0201AndAlikeTransliteratorOptions, ProlongedSoundMarksTransliteratorOptions,
    TransliteratorConfig,
};
use crate::transliterators::jisx0201_and_alike::spec_default_options;

pub mod laws;

verus! {

/// Position of the first configuration of kind `kind` in `s`.
pub open spec fn find_kind(s: Seq<ConfigView>, kind: int) -> Option<int>
    decreases s.len(),
{
    if s.len() == 0 {
        None
    } else if kind_of(s[0]) == kind {
        Some(0)
    } else {
        match find_kind(s.drop_first(), kind) {
            Some(i) => Some(i + 1),
            None => None,
        }
    }
}

/// [`find_kind`] gives the first position of the kind, and `None` only
/// where the kind does not occur.
pub proof fn lemma_find_kind(s: Seq<ConfigView>, kind: int)
    ensures
        match find_kind(s, kind) {
            Some(i) => 0 <= i < s.len() && kind_of(s[i]) == kind && forall|j: int|
                0 <= j < i ==> kind_of(#[trigger] s[j]) != kind,
            None => forall|j: int| 0 <= j < s.len() ==> kind_of(#[trigger] s[j]) != kind,
        },
    decreases s.len(),
{
    if s.len() > 0 && kind_of(s[0]) != kind {
        let rest = s.drop_first();
        lemma_find_kind(rest, kind);
        match find_kind(rest, kind) {
            Some(i) => {
                assert(s[i + 1] == rest[i]);
                assert forall|j: int| 0 <= j < i + 1 implies kind_of(#[trigger] s[j]) != kind by {
                    if j > 0 {
                        assert(s[j] == rest[j - 1]);
                    }
                }
            },
            None => {
                assert forall|j: int| 0 <= j < s.len() implies kind_of(#[trigger] s[j])
                    != kind by {
                    if j > 0 {
                        assert(s[j] == rest[j - 1]);
                    }
                }
            },
        }
    }
}

/// The two lists that a recipe is resolved into: the pipeline is the head
/// followed by the tail.
#[derive(Debug, Clone, PartialEq)]
pub struct TransliteratorConfigBuilder {
    pub head: Vec<TransliteratorConfig>,
    pub tail: Vec<TransliteratorConfig>,
}

/// The mathematical value of a [`TransliteratorConfigBuilder`].
pub struct BuilderView {
    pub head: Seq<ConfigView>,
    pub tail: Seq<ConfigView>,
}

impl View for TransliteratorConfigBuilder {
    type V = BuilderView;

    open spec fn view(&self) -> BuilderView {
        BuilderView { head: config_views(self.head@), tail: config_views(self.tail@) }
    }
}

/// `list` with `config` in it: in the place of the first configuration of
/// its kind where there is one and `force_replace` asks for it, at the
/// front (or, with `at_end`, at the end) where there is none.
pub open spec fn inserted(
    list: Seq<ConfigView>,
    config: ConfigView,
    force_replace: bool,
    at_end: bool,
) -> Seq<ConfigView> {
    match find_kind(list, kind_of(config)) {
        Some(i) => if force_replace {
            list.update(i, config)
        } else {
            list
        },
        None => if at_end {
            list.push(config)
        } else {
            seq![config] + list
        },
    }
}

impl BuilderView {
    /// The stage is to run before all that are there.
    pub open spec fn insert_head(self, config: ConfigView, force_replace: bool) -> BuilderView {
        BuilderView { head: inserted(self.head, config, force_replace, false), tail: self.tail }
    }

    /// The stage is to run after the head and before the tail.
    pub open spec fn insert_middle(self, config: ConfigView, force_replace: bool) -> BuilderView {
        BuilderView { head: self.head, tail: inserted(self.tail, config, force_replace, false) }
    }

    /// The stage is to run after all that are there.
    pub open spec fn insert_tail(self, config: ConfigView, force_replace: bool) -> BuilderView {
        BuilderView { head: self.head, tail: inserted(self.tail, config, force_replace, true) }
    }

    /// The pipeline: the head followed by the tail.
    pub open spec fn build(self) -> Seq<ConfigView> {
        self.head + self.tail
    }
}

fn find_in(list: &Vec<TransliteratorConfig>, config: &TransliteratorConfig) -> (r: Option<usize>)
    ensures
        match r {
            Some(i) => find_kind(config_views(list@), kind_of(config@)) == Some(i as int),
            None => find_kind(config_views(list@), kind_of(config@)) is None,
        },
{
    let kind = config.kind();
    let ghost views = config_views(list@);
    let mut i: usize = 0;
    while i < list.len()
        invariant
            i <= list.len(),
            views == config_views(list@),
            kind == kind_of(config@),
            forall|j: int| 0 <= j < i ==> kind_of(#[trigger] views[j]) != kind,
        decreases list.len() - i,
    {
        assert(views[i as int] == list@[i as int]@);
        if list[i].kind() == kind {
            proof {
                lemma_find_kind(views, kind as int);
            }
            return Some(i);
        }
        i += 1;
    }
    proof {
        lemma_find_kind(views, kind as int);
    }
    None
}

fn insert_into(
    list: &mut Vec<TransliteratorConfig>,
    config: TransliteratorConfig,
    force_replace: bool,
    at_end: bool,
)
    ensures
        config_views(final(list)@) == inserted(
            config_views(old(list)@),
            config@,
            force_replace,
            at_end,
        ),
{
    let ghost before = config_views(list@);
    match find_in(list, &config) {
        Some(i) => {
            proof {
                lemma_find_kind(before, kind_of(config@));
            }
            if force_replace {
                list.set(i, config);
                assert(config_views(list@) =~= before.update(i as int, config@));
            }
        },
        None => {
            if at_end {
                list.push(config);
                assert(config_views(list@) =~= before.push(config@));
            } else {
                list.insert(0, config);
                assert(config_views(list@) =~= seq![config@] + before);
            }
        },
    }
}

impl TransliteratorConfigBuilder {
    /// A builder with nothing in it.
    pub fn new() -> (r: Self)
        ensures
            r@ == (BuilderView { head: Seq::<ConfigView>::empty(), tail: Seq::<ConfigView>::empty() }),
    {
        let r = TransliteratorConfigBuilder { head: Vec::new(), tail: Vec::new() };
        assert(r@.head =~= Seq::<ConfigView>::empty());
        assert(r@.tail =~= Seq::<ConfigView>::empty());
        r
    }

    /// Position in the head of the first configuration of the kind of
    /// `config`.
    pub fn find_in_head(&self, config: &TransliteratorConfig) -> (r: Option<usize>)
        ensures
            match r {
                Some(i) => find_kind(self@.head, kind_of(config@)) == Some(i as int),
                None => find_kind(self@.head, kind_of(config@)) is None,
            },
    {
        find_in(&self.head, config)
    }

    /// Position in the tail of the first configuration of the kind of
    /// `config`.
    pub fn find_in_tail(&self, config: &TransliteratorConfig) -> (r: Option<usize>)
        ensures
            match r {
                Some(i) => find_kind(self@.tail, kind_of(config@)) == Some(i as int),
                None => find_kind(self@.tail, kind_of(config@)) is None,
            },
    {
        find_in(&self.tail, config)
    }

    /// Puts `config` in to run before all that are there.
    pub fn insert_head(self, config: TransliteratorConfig, force_replace: bool) -> (r: Self)
        ensures
            r@ == self@.insert_head(config@, force_replace),
    {
        let mut b = self;
        insert_into(&mut b.head, config, force_replace, false);
        b
    }

    /// Puts `config` in to run after the head and before the tail.
    pub fn insert_middle(self, config: TransliteratorConfig, force_replace: bool) -> (r: Self)
        ensures
            r@ == self@.insert_middle(config@, force_replace),
    {
        let mut b = self;
        insert_into(&mut b.tail, config, force_replace, false);
        b
    }

    /// Puts `config` in to run after all that are there.
    pub fn insert_tail(self, config: TransliteratorConfig, force_replace: bool) -> (r: Self)
        ensures
            r@ == self@.insert_tail(config@, force_replace),
    {
        let mut b = self;
        insert_into(&mut b.tail, config, force_replace, true);
        b
    }

    /// The pipeline: the head followed by the tail.
    pub fn build(self) -> (r: Vec<TransliteratorConfig>)
        ensures
            config_views(r@) == self@.build(),
    {
        let mut configs = self.head;
        let mut tail = self.tail;
        configs.append(&mut tail);
        assert(config_views(configs@) =~= self@.head + self@.tail);
        configs
    }
}

impl Default for TransliteratorConfigBuilder {
    fn default() -> (r: Self)
        ensures
            r@ == (BuilderView { head: Seq::<ConfigView>::empty(), tail: Seq::<ConfigView>::empty() }),
    {
        Self::new()
    }
}

/// Whether half-width characters are to become full-width, and whether
/// U+005C is then taken for the yen sign.
#[derive(Debug, Clone, Copy, PartialEq, Eq, Structural)]
pub enum ToFullWidthOptions {
    No,
    Yes { u005c_as_yen_sign: bool },
}

/// Whether full-width characters are to become half-width, and whether
/// katakana are among them.
#[derive(Debug, Clone, Copy, PartialEq, Eq, Structural)]
pub enum ToHalfwidthOptions {
    No,
    Yes { hankaku_kana: bool },
}

/// Whether variation sequences are to give way to their base characters,
/// and whether selectors that no record knows are to go too.
#[derive(Debug, Clone, Copy, PartialEq, Eq, Structural)]
pub enum RemoveIVSSVSOptions {
    No,
    Yes { drop_all_selectors: bool },
}

/// Whether circled or squared characters are to be replaced, and whether
/// those that are emoji are left alone.
#[derive(Debug, Clone, Copy, PartialEq, Eq, Structural)]
pub enum ReplaceCircledOrSquaredCharactersOptions {
    No,
    Yes { exclude_emojis: bool },
}

/// Whether hyphens are to be replaced, and by which standards.
#[derive(Debug, Clone, PartialEq)]
pub enum ReplaceHyphensOptions {
    No,
    Yes { precedence: Vec<HyphensTransliterationVariant> },
}

/// Whether, and which way, hiragana and katakana are converted.
#[derive(Debug, Clone, Copy, PartialEq, Eq, Structural)]
pub enum HiraKataOptions {
    No,
    HiraToKata,
    KataToHira,
}

impl Default for ToFullWidthOptions {
    fn default() -> (r: Self)
        ensures
            r == ToFullWidthOptions::No,
    {
        ToFullWidthOptions::No
    }
}

impl Default for ToHalfwidthOptions {
    fn default() -> (r: Self)
        ensures
            r == ToHalfwidthOptions::No,
    {
        ToHalfwidthOptions::No
    }
}

impl Default for RemoveIVSSVSOptions {
    fn default() -> (r: Self)
        ensures
            r == RemoveIVSSVSOptions::No,
    {
        RemoveIVSSVSOptions::No
    }
}

impl Default for ReplaceCircledOrSquaredCharactersOptions {
    fn default() -> (r: Self)
        ensures
            r == ReplaceCircledOrSquaredCharactersOptions::No,
    {
        ReplaceCircledOrSquaredCharactersOptions::No
    }
}

impl Default for ReplaceHyphensOptions {
    fn default() -> (r: Self)
        ensures
            r is No,
    {
        ReplaceHyphensOptions::No
    }
}

impl Default for HiraKataOptions {
    fn default() -> (r: Self)
        ensures
            r == HiraKataOptions::No,
    {
        HiraKataOptions::No
    }
}

/// A set of named options that says what a text is to be cleared of.
#[derive(Debug, Clone)]
pub struct TransliterationRecipe {
    /// Replace old-style kanji by their modern forms.
    pub kanji_old_new: bool,
    /// Convert between hiragana and katakana.
    pub hira_kata: HiraKataOptions,
    /// Replace iteration marks by the characters they repeat.
    pub replace_japanese_iteration_marks: bool,
    /// Replace hyphens that stand for prolonged sound marks.
    pub replace_suspicious_hyphens_to_prolonged_sound_marks: bool,
    /// Replace combined characters by the characters they are made of.
    pub replace_combined_characters: bool,
    /// Replace circled or squared characters by what they enclose.
    pub replace_circled_or_squared_characters: ReplaceCircledOrSquaredCharactersOptions,
    /// Replace ideographic annotation marks by the ideographs they show.
    pub replace_ideographic_annotations: bool,
    /// Replace Kangxi radicals by the ideographs they look like.
    pub replace_radicals: bool,
    /// Replace the various space characters by the plain space.
    pub replace_spaces: bool,
    /// Replace the various dashes and hyphens.
    pub replace_hyphens: ReplaceHyphensOptions,
    /// Replace mathematical alphanumerics by plain letters and digits.
    pub replace_mathematical_alphanumerics: bool,
    /// Replace roman numeral characters by plain letters.
    pub replace_roman_numerals: bool,
    /// Join kana and the sound marks that follow them.
    pub combine_decomposed_hiraganas_and_katakanas: bool,
    /// Replace half-width characters by full-width ones.
    pub to_fullwidth: ToFullWidthOptions,
    /// Replace full-width characters by half-width ones.
    pub to_halfwidth: ToHalfwidthOptions,
    /// Replace variation sequences by their base characters.
    pub remove_ivs_svs: RemoveIVSSVSOptions,
    /// Edition of the character set for variation sequences.
    pub charset: Charset,
}

impl Default for TransliterationRecipe {
    fn default() -> (r: Self)
        ensures
            !r.kanji_old_new,
            r.hira_kata == HiraKataOptions::No,
            !r.replace_japanese_iteration_marks,
            !r.replace_suspicious_hyphens_to_prolonged_sound_marks,
            !r.replace_combined_characters,
            r.replace_circled_or_squared_characters == ReplaceCircledOrSquaredCharactersOptions::No,
            !r.replace_ideographic_annotations,
            !r.replace_radicals,
            !r.replace_spaces,
            r.replace_hyphens is No,
            !r.replace_mathematical_alphanumerics,
            !r.replace_roman_numerals,
            !r.combine_decomposed_hiraganas_and_katakanas,
            r.to_fullwidth == ToFullWidthOptions::No,
            r.to_halfwidth == ToHalfwidthOptions::No,
            r.remove_ivs_svs == RemoveIVSSVSOptions::No,
            r.charset == Charset::Unijis2004,
    {
        TransliterationRecipe {
            kanji_old_new: false,
            hira_kata: HiraKataOptions::No,
            replace_japanese_iteration_marks: false,
            replace_suspicious_hyphens_to_prolonged_sound_marks: false,
            replace_combined_characters: false,
            replace_circled_or_squared_characters: ReplaceCircledOrSquaredCharactersOptions::No,
            replace_ideographic_annotations: false,
            replace_radicals: false,
            replace_spaces: false,
            replace_hyphens: ReplaceHyphensOptions::No,
            replace_mathematical_alphanumerics: false,
            replace_roman_numerals: false,
            combine_decomposed_hiraganas_and_katakanas: false,
            to_fullwidth: ToFullWidthOptions::No,
            to_halfwidth: ToHalfwidthOptions::No,
            remove_ivs_svs: RemoveIVSSVSOptions::No,
            charset: Charset::Unijis2004,
        }
    }
}

/// What is wrong with an option of a recipe.
#[derive(Debug)]
pub enum TransliterationRecipeError {
    KanjiOldNewError(Vec<String>),
    ReplaceSuspiciousHyphensError(Vec<String>),
    ReplaceCombinedCharactersError(Vec<String>),
    ReplaceCircledOrSquaredCharactersError(Vec<String>),
    ReplaceIdeographicAnnotationsError(Vec<String>),
    ReplaceRadicalsError(Vec<String>),
    ReplaceSpacesError(Vec<String>),
    ReplaceHyphensError(Vec<String>),
    ReplaceMathematicalAlphanumericsError(Vec<String>),
    CombineDecomposedHiraganasAndKatakanasError(Vec<String>),
    ToFullwidthError(Vec<String>),
    ToHalfwidthError(Vec<String>),
    RemoveIVSSVSError(Vec<String>),
}

impl TransliterationRecipeError {
    /// The name of the option that the error is about.
    pub open spec fn spec_option_name(&self) -> Seq<char> {
        match self {
            TransliterationRecipeError::KanjiOldNewError(_) => "kanji_old_new"@,
            TransliterationRecipeError::ReplaceSuspiciousHyphensError(_) => {
                "replace_suspicious_hyphens_to_prolonged_sound_marks"@
            },
            TransliterationRecipeError::ReplaceCombinedCharactersError(_) => {
                "replace_combined_characters"@
            },
            TransliterationRecipeError::ReplaceCircledOrSquaredCharactersError(_) => {
                "replace_circled_or_squared_characters"@
            },
            TransliterationRecipeError::ReplaceIdeographicAnnotationsError(_) => {
                "replace_ideographic_annotations"@
            },
            TransliterationRecipeError::ReplaceRadicalsError(_) => "replace_radicals"@,
            TransliterationRecipeError::ReplaceSpacesError(_) => "replace_spaces"@,
            TransliterationRecipeError::ReplaceHyphensError(_) => "replace_hyphens"@,
            TransliterationRecipeError::ReplaceMathematicalAlphanumericsError(_) => {
                "replace_mathematical_alphanumerics"@
            },
            TransliterationRecipeError::CombineDecomposedHiraganasAndKatakanasError(_) => {
                "combine_decomposed_hiraganas_and_katakanas"@
            },
            TransliterationRecipeError::ToFullwidthError(_) => "to_fullwidth"@,
            TransliterationRecipeError::ToHalfwidthError(_) => "to_halfwidth"@,
            TransliterationRecipeError::RemoveIVSSVSError(_) => "remove_ivs_svs"@,
        }
    }

    /// What is said to be wrong with the option.
    pub open spec fn spec_reasons(&self) -> Seq<Seq<char>> {
        match self {
            TransliterationRecipeError::KanjiOldNewError(v) => string_views(v@),
            TransliterationRecipeError::ReplaceSuspiciousHyphensError(v) => string_views(v@),
            TransliterationRecipeError::ReplaceCombinedCharactersError(v) => string_views(v@),
            TransliterationRecipeError::ReplaceCircledOrSquaredCharactersError(v) => string_views(
                v@,
            ),
            TransliterationRecipeError::ReplaceIdeographicAnnotationsError(v) => string_views(v@),
            TransliterationRecipeError::ReplaceRadicalsError(v) => string_views(v@),
            TransliterationRecipeError::ReplaceSpacesError(v) => string_views(v@),
            TransliterationRecipeError::ReplaceHyphensError(v) => string_views(v@),
            TransliterationRecipeError::ReplaceMathematicalAlphanumericsError(v) => string_views(
                v@,
            ),
            TransliterationRecipeError::CombineDecomposedHiraganasAndKatakanasError(
                v,
            ) => string_views(v@),
            TransliterationRecipeError::ToFullwidthError(v) => string_views(v@),
            TransliterationRecipeError::ToHalfwidthError(v) => string_views(v@),
            TransliterationRecipeError::RemoveIVSSVSError(v) => string_views(v@),
        }
    }

    /// The message: the option's name, a colon, and the reasons with a
    /// comma between each two.
    pub open spec fn spec_to_string(&self) -> Seq<char> {
        self.spec_option_name() + ": "@ + join_texts(self.spec_reasons(), ", "@)
    }

    /// The message that describes the error.
    pub fn to_string(&self) -> (s: String)
        ensures
            s@ == self.spec_to_string(),
    {
        let (name, reasons) = match self {
            TransliterationRecipeError::KanjiOldNewError(v) => ("kanji_old_new", v),
            TransliterationRecipeError::ReplaceSuspiciousHyphensError(v) => (
                "replace_suspicious_hyphens_to_prolonged_sound_marks",
                v,
            ),
            TransliterationRecipeError::ReplaceCombinedCharactersError(v) => (
                "replace_combined_characters",
                v,
            ),
            TransliterationRecipeError::ReplaceCircledOrSquaredCharactersError(v) => (
                "replace_circled_or_squared_characters",
                v,
            ),
            TransliterationRecipeError::ReplaceIdeographicAnnotationsError(v) => (
                "replace_ideographic_annotations",
                v,
            ),
            TransliterationRecipeError::ReplaceRadicalsError(v) => ("replace_radicals", v),
            TransliterationRecipeError::ReplaceSpacesError(v) => ("replace_spaces", v),
            TransliterationRecipeError::ReplaceHyphensError(v) => ("replace_hyphens", v),
            TransliterationRecipeError::ReplaceMathematicalAlphanumericsError(v) => (
                "replace_mathematical_alphanumerics",
                v,
            ),
            TransliterationRecipeError::CombineDecomposedHiraganasAndKatakanasError(v) => (
                "combine_decomposed_hiraganas_and_katakanas",
                v,
            ),
            TransliterationRecipeError::ToFullwidthError(v) => ("to_fullwidth", v),
            TransliterationRecipeError::ToHalfwidthError(v) => ("to_halfwidth", v),
            TransliterationRecipeError::RemoveIVSSVSError(v) => ("remove_ivs_svs", v),
        };
        let mut s = String::from_str(name);
        s.append(": ");
        let joined = join(reasons, ", ");
        s.append(joined.as_str());
        s
    }
}

/// Joins the messages with `sep` between each two, as the `join` of
/// `itertools::Itertools` does for items that display as themselves: the
/// first message, then for each further one `sep` and the message.
#[verifier::external_body]
fn join_messages(messages: &Vec<String>, sep: &str) -> (r: String)
    ensures
        r@ == join_texts(string_views(messages@), sep@),
{
    messages.iter().join(sep)
}


/// The precedence of hyphen standards that a recipe gets where it names
/// none.
pub open spec fn default_precedence() -> Seq<HyphensTransliterationVariant> {
    seq![HyphensTransliterationVariant::Jisx0208_90Windows, HyphensTransliterationVariant::Jisx0201]
}

/// The options of the stage that a recipe uses for suspicious hyphens.
pub open spec fn prolonged_marks_options() -> ProlongedSoundMarksTransliteratorOptions {
    ProlongedSoundMarksTransliteratorOptions {
        skip_already_transliterated_chars: false,
        allow_prolonged_hatsuon: false,
        allow_prolonged_sokuon: false,
        replace_prolonged_marks_following_alnums: true,
    }
}

/// What the error of `to_fullwidth` says where both widths are asked for.
pub open spec fn fullwidth_conflict_text() -> Seq<char> {
    "to_fullwidth"@ + ": "@ + "to_fullwidth and to_halfwidth are mutually exclusive"@
}

/// What the error of `to_halfwidth` says where both widths are asked for.
pub open spec fn halfwidth_conflict_text() -> Seq<char> {
    "to_halfwidth"@ + ": "@ + "to_halfwidth and to_fullwidth are mutually exclusive"@
}

/// The message of the error that tells of both widths being asked for.
pub open spec fn conflict_message() -> Seq<char> {
    fullwidth_conflict_text() + "; "@ + halfwidth_conflict_text()
}

impl TransliterationRecipe {
    /// Both widths are asked for, which no pipeline can give.
    pub open spec fn spec_conflict(&self) -> bool {
        self.to_fullwidth is Yes && self.to_halfwidth is Yes
    }

    /// The stage that turns base characters into variation sequences goes
    /// to the head and the one that turns them back to the end of the tail,
    /// each taking the place of one that is there.
    pub open spec fn spec_remove_ivs_svs_helper(
        &self,
        b: BuilderView,
        drop_selectors_altogether: bool,
    ) -> BuilderView {
        b.insert_head(
            ConfigView::IvsSvsBase(
                IvsSvsBaseTransliteratorOptions {
                    mode: IvsSvsBaseMode::IvsOrSvs(false),
                    charset: self.charset,
                    drop_selectors_altogether: false,
                },
            ),
            true,
        ).insert_tail(
            ConfigView::IvsSvsBase(
                IvsSvsBaseTransliteratorOptions {
                    mode: IvsSvsBaseMode::Base,
                    charset: self.charset,
                    drop_selectors_altogether,
                },
            ),
            true,
        )
    }

    /// What the option adds to a builder: the replacement of old kanji: the
    /// conversions of variation sequences around it, and the replacement
    /// itself in the middle.
    pub open spec fn spec_apply_kanji_old_new(&self, b: BuilderView) -> BuilderView {
        if self.kanji_old_new {
            self.spec_remove_ivs_svs_helper(b, false).insert_middle(ConfigView::KanjiOldNew, false)
        } else {
            b
        }
    }

    /// What the option adds to a builder: the conversion between hiragana and
    /// katakana, in the middle.
    pub open spec fn spec_apply_hira_kata(&self, b: BuilderView) -> BuilderView {
        match self.hira_kata {
            HiraKataOptions::HiraToKata => b.insert_middle(
                ConfigView::HiraKata(HiraKataTransliteratorOptions { mode: HiraKataMode::HiraToKata }),
                false,
            ),
            HiraKataOptions::KataToHira => b.insert_middle(
                ConfigView::HiraKata(HiraKataTransliteratorOptions { mode: HiraKataMode::KataToHira }),
                false,
            ),
            HiraKataOptions::No => b,
        }
    }

    /// What the option adds to a builder: the expansion of iteration marks,
    /// in the middle, with the composition of sound marks at the head before
    /// it.
    pub open spec fn spec_apply_replace_japanese_iteration_marks(
        &self,
        b: BuilderView,
    ) -> BuilderView {
        if self.replace_japanese_iteration_marks {
            b.insert_head(
                ConfigView::HiraKataComposition(
                    HiraKataCompositionTransliteratorOptions { compose_non_combining_marks: true },
                ),
                false,
            ).insert_middle(ConfigView::JapaneseIterationMarks, false)
        } else {
            b
        }
    }

    /// What the option adds to a builder: the resolution of hyphens that
    /// stand for prolonged sound marks, in the middle.
    pub open spec fn spec_apply_replace_suspicious_hyphens_to_prolonged_sound_marks(
        &self,
        b: BuilderView,
    ) -> BuilderView {
        if self.replace_suspicious_hyphens_to_prolonged_sound_marks {
            b.insert_middle(ConfigView::ProlongedSoundMarks(prolonged_marks_options()), false)
        } else {
            b
        }
    }

    /// What the option adds to a builder: the replacement of ideographic
    /// annotation marks, in the middle.
    pub open spec fn spec_apply_replace_ideographic_annotations(&self, b: BuilderView) -> BuilderView {
        if self.replace_ideographic_annotations {
            b.insert_middle(ConfigView::IdeographicAnnotations, false)
        } else {
            b
        }
    }

    /// What the option adds to a builder: the replacement of radicals, in the
    /// middle.
    pub open spec fn spec_apply_replace_radicals(&self, b: BuilderView) -> BuilderView {
        if self.replace_radicals {
            b.insert_middle(ConfigView::Radicals, false)
        } else {
            b
        }
    }

    /// What the option adds to a builder: the replacement of spaces, in the
    /// middle.
    pub open spec fn spec_apply_replace_spaces(&self, b: BuilderView) -> BuilderView {
        if self.replace_spaces {
            b.insert_middle(ConfigView::Spaces, false)
        } else {
            b
        }
    }

    /// What the option adds to a builder: the replacement of mathematical
    /// alphanumerics, in the middle.
    pub open spec fn spec_apply_replace_mathematical_alphanumerics(&self, b: BuilderView) -> BuilderView {
        if self.replace_mathematical_alphanumerics {
            b.insert_middle(ConfigView::MathematicalAlphanumerics, false)
        } else {
            b
        }
    }

    /// What the option adds to a builder: the replacement of roman numerals,
    /// in the middle.
    pub open spec fn spec_apply_replace_roman_numerals(&self, b: BuilderView) -> BuilderView {
        if self.replace_roman_numerals {
            b.insert_middle(ConfigView::RomanNumerals, false)
        } else {
            b
        }
    }

    /// What the option adds to a builder: the replacement of combined
    /// characters, in the middle.
    pub open spec fn spec_apply_replace_combined_characters(&self, b: BuilderView) -> BuilderView {
        if self.replace_combined_characters {
            b.insert_middle(ConfigView::Combined, false)
        } else {
            b
        }
    }

    /// What the option adds to a builder: the replacement of hyphens, in the
    /// middle, with the precedence that the recipe names or the default one.
    pub open spec fn spec_apply_replace_hyphens(&self, b: BuilderView) -> BuilderView {
        match self.replace_hyphens {
            ReplaceHyphensOptions::Yes { precedence } => b.insert_middle(
                ConfigView::Hyphens {
                    precedence: if precedence@.len() == 0 {
                        default_precedence()
                    } else {
                        precedence@
                    },
                },
                false,
            ),
            ReplaceHyphensOptions::No => b,
        }
    }

    /// What the option adds to a builder: the composition of sound marks, at
    /// the head.
    pub open spec fn spec_apply_combine_decomposed_hiraganas_and_katakanas(
        &self,
        b: BuilderView,
    ) -> BuilderView {
        if self.combine_decomposed_hiraganas_and_katakanas {
            b.insert_head(
                ConfigView::HiraKataComposition(
                    HiraKataCompositionTransliteratorOptions { compose_non_combining_marks: true },
                ),
                false,
            )
        } else {
            b
        }
    }

    /// What the option adds to a builder: the conversion to full-width, at
    /// the tail; nothing where the recipe asks for both widths.
    pub open spec fn spec_apply_to_fullwidth(&self, b: BuilderView) -> BuilderView {
        match self.to_fullwidth {
            ToFullWidthOptions::Yes { u005c_as_yen_sign } => if self.to_halfwidth is Yes {
                b
            } else {
                b.insert_tail(
                    ConfigView::Jisx0201AndAlike {
                        fullwidth_to_halfwidth: false,
                        options: Jisx0201AndAlikeTransliteratorOptions {
                            u005c_as_yen_sign: Some(u005c_as_yen_sign),
                            ..spec_default_options()
                        },
                    },
                    false,
                )
            },
            ToFullWidthOptions::No => b,
        }
    }

    /// What the option adds to a builder: the conversion to half-width, at
    /// the tail; nothing where the recipe asks for both widths.
    pub open spec fn spec_apply_to_halfwidth(&self, b: BuilderView) -> BuilderView {
        match self.to_halfwidth {
            ToHalfwidthOptions::Yes { hankaku_kana } => if self.to_fullwidth is Yes {
                b
            } else {
                b.insert_tail(
                    ConfigView::Jisx0201AndAlike {
                        fullwidth_to_halfwidth: true,
                        options: Jisx0201AndAlikeTransliteratorOptions {
                            convert_gl: true,
                            convert_gr: hankaku_kana,
                            ..spec_default_options()
                        },
                    },
                    false,
                )
            },
            ToHalfwidthOptions::No => b,
        }
    }

    /// What the option adds to a builder: the removal of variation sequences:
    /// the conversions of variation sequences at the head and at the tail.
    pub open spec fn spec_apply_remove_ivs_svs(&self, b: BuilderView) -> BuilderView {
        match self.remove_ivs_svs {
            RemoveIVSSVSOptions::Yes { drop_all_selectors } => self.spec_remove_ivs_svs_helper(
                b,
                drop_all_selectors,
            ),
            RemoveIVSSVSOptions::No => b,
        }
    }

    /// What the option adds to a builder: the replacement of circled or
    /// squared characters, in the middle.
    pub open spec fn spec_apply_replace_circled_or_squared_characters(
        &self,
        b: BuilderView,
    ) -> BuilderView {
        match self.replace_circled_or_squared_characters {
            ReplaceCircledOrSquaredCharactersOptions::Yes { exclude_emojis } => b.insert_middle(
                ConfigView::CircledOrSquared(
                    CircledOrSquaredTransliteratorOptions { include_emojis: !exclude_emojis },
                ),
                false,
            ),
            ReplaceCircledOrSquaredCharactersOptions::No => b,
        }
    }

    /// The head and the tail after the first seven options, taken in their
    /// fixed order.
    pub open spec fn spec_resolve_first(&self) -> BuilderView {
        let b0 = BuilderView { head: Seq::<ConfigView>::empty(), tail: Seq::<ConfigView>::empty() };
        let b1 = self.spec_apply_kanji_old_new(b0);
        let b2 = self.spec_apply_replace_suspicious_hyphens_to_prolonged_sound_marks(b1);
        let b3 = self.spec_apply_replace_circled_or_squared_characters(b2);
        let b4 = self.spec_apply_replace_combined_characters(b3);
        let b5 = self.spec_apply_replace_ideographic_annotations(b4);
        let b6 = self.spec_apply_replace_radicals(b5);
        self.spec_apply_replace_spaces(b6)
    }

    /// The head and the tail after all the options, taken in their fixed
    /// order.
    pub open spec fn spec_resolve(&self) -> BuilderView {
        let b7 = self.spec_resolve_first();
        let b8 = self.spec_apply_replace_hyphens(b7);
        let b9 = self.spec_apply_replace_mathematical_alphanumerics(b8);
        let b10 = self.spec_apply_replace_roman_numerals(b9);
        let b11 = self.spec_apply_combine_decomposed_hiraganas_and_katakanas(b10);
        let b12 = self.spec_apply_to_fullwidth(b11);
        let b13 = self.spec_apply_hira_kata(b12);
        let b14 = self.spec_apply_replace_japanese_iteration_marks(b13);
        let b15 = self.spec_apply_to_halfwidth(b14);
        self.spec_apply_remove_ivs_svs(b15)
    }

    /// The pipeline that the recipe resolves into.
    pub open spec fn spec_build(&self) -> Seq<ConfigView> {
        self.spec_resolve().build()
    }

    /// Puts the two conversions of variation sequences into the builder.
    pub fn remove_ivs_svs_helper(
        &self,
        builder: TransliteratorConfigBuilder,
        drop_selectors_altogether: bool,
    ) -> (r: TransliteratorConfigBuilder)
        ensures
            r@ == self.spec_remove_ivs_svs_helper(builder@, drop_selectors_altogether),
    {
        let builder = builder.insert_head(
            TransliteratorConfig::IvsSvsBase(
                IvsSvsBaseTransliteratorOptions {
                    mode: IvsSvsBaseMode::IvsOrSvs(false),
                    charset: self.charset,
                    drop_selectors_altogether: false,
                },
            ),
            true,
        );
        builder.insert_tail(
            TransliteratorConfig::IvsSvsBase(
                IvsSvsBaseTransliteratorOptions {
                    mode: IvsSvsBaseMode::Base,
                    charset: self.charset,
                    drop_selectors_altogether,
                },
            ),
            true,
        )
    }

    /// Adds to the builder what the option asks for: the replacement of old
    /// kanji: the conversions of variation sequences around it, and the
    /// replacement itself in the middle.
    pub fn apply_kanji_old_new(&self, builder: TransliteratorConfigBuilder) -> (r: (
        TransliteratorConfigBuilder,
        Option<TransliterationRecipeError>,
    ))
        ensures
            r.0@ == self.spec_apply_kanji_old_new(builder@),
            r.1 is None,
    {
        if self.kanji_old_new {
            let builder = self.remove_ivs_svs_helper(builder, false);
            (builder.insert_middle(TransliteratorConfig::KanjiOldNew, false), None)
        } else {
            (builder, None)
        }
    }

    /// Adds to the builder what the option asks for: the conversion between
    /// hiragana and katakana, in the middle.
    pub fn apply_hira_kata(&self, builder: TransliteratorConfigBuilder) -> (r: (
        TransliteratorConfigBuilder,
        Option<TransliterationRecipeError>,
    ))
        ensures
            r.0@ == self.spec_apply_hira_kata(builder@),
            r.1 is None,
    {
        match self.hira_kata {
            HiraKataOptions::HiraToKata => (
                builder.insert_middle(
                    TransliteratorConfig::HiraKata(
                        HiraKataTransliteratorOptions { mode: HiraKataMode::HiraToKata },
                    ),
                    false,
                ),
                None,
            ),
            HiraKataOptions::KataToHira => (
                builder.insert_middle(
                    TransliteratorConfig::HiraKata(
                        HiraKataTransliteratorOptions { mode: HiraKataMode::KataToHira },
                    ),
                    false,
                ),
                None,
            ),
            HiraKataOptions::No => (builder, None),
        }
    }

    /// Adds to the builder what the option asks for: the expansion of
    /// iteration marks, in the middle, with the composition of sound marks at
    /// the head before it.
    pub fn apply_replace_japanese_iteration_marks(
        &self,
        builder: TransliteratorConfigBuilder,
    ) -> (r: (TransliteratorConfigBuilder, Option<TransliterationRecipeError>))
        ensures
            r.0@ == self.spec_apply_replace_japanese_iteration_marks(builder@),
            r.1 is None,
    {
        if self.replace_japanese_iteration_marks {
            let builder = builder.insert_head(
                TransliteratorConfig::HiraKataComposition(
                    HiraKataCompositionTransliteratorOptions { compose_non_combining_marks: true },
                ),
                false,
            );
            (
                builder.insert_middle(
                    TransliteratorConfig::JapaneseIterationMarks(
                        JapaneseIterationMarksTransliteratorOptions {  },
                    ),
                    false,
                ),
                None,
            )
        } else {
            (builder, None)
        }
    }

    /// Adds to the builder what the option asks for: the resolution of
    /// hyphens that stand for prolonged sound marks, in the middle.
    pub fn apply_replace_suspicious_hyphens_to_prolonged_sound_marks(
        &self,
        builder: TransliteratorConfigBuilder,
    ) -> (r: (TransliteratorConfigBuilder, Option<TransliterationRecipeError>))
        ensures
            r.0@ == self.spec_apply_replace_suspicious_hyphens_to_prolonged_sound_marks(builder@),
            r.1 is None,
    {
        if self.replace_suspicious_hyphens_to_prolonged_sound_marks {
            (
                builder.insert_middle(
                    TransliteratorConfig::ProlongedSoundMarks(
                        ProlongedSoundMarksTransliteratorOptions {
                            skip_already_transliterated_chars: false,
                            allow_prolonged_hatsuon: false,
                            allow_prolonged_sokuon: false,
                            replace_prolonged_marks_following_alnums: true,
                        },
                    ),
                    false,
                ),
                None,
            )
        } else {
            (builder, None)
        }
    }

    /// Adds to the builder what the option asks for: the replacement of
    /// ideographic annotation marks, in the middle.
    pub fn apply_replace_ideographic_annotations(&self, builder: TransliteratorConfigBuilder) -> (r: (
        TransliteratorConfigBuilder,
        Option<TransliterationRecipeError>,
    ))
        ensures
            r.0@ == self.spec_apply_replace_ideographic_annotations(builder@),
            r.1 is None,
    {
        if self.replace_ideographic_annotations {
            (builder.insert_middle(TransliteratorConfig::IdeographicAnnotations, false), None)
        } else {
            (builder, None)
        }
    }

    /// Adds to the builder what the option asks for: the replacement of
    /// radicals, in the middle.
    pub fn apply_replace_radicals(&self, builder: TransliteratorConfigBuilder) -> (r: (
        TransliteratorConfigBuilder,
        Option<TransliterationRecipeError>,
    ))
        ensures
            r.0@ == self.spec_apply_replace_radicals(builder@),
            r.1 is None,
    {
        if self.replace_radicals {
            (builder.insert_middle(TransliteratorConfig::Radicals, false), None)
        } else {
            (builder, None)
        }
    }

    /// Adds to the builder what the option asks for: the replacement of
    /// spaces, in the middle.
    pub fn apply_replace_spaces(&self, builder: TransliteratorConfigBuilder) -> (r: (
        TransliteratorConfigBuilder,
        Option<TransliterationRecipeError>,
    ))
        ensures
            r.0@ == self.spec_apply_replace_spaces(builder@),
            r.1 is None,
    {
        if self.replace_spaces {
            (builder.insert_middle(TransliteratorConfig::Spaces, false), None)
        } else {
            (builder, None)
        }
    }

    /// Adds to the builder what the option asks for: the replacement of
    /// mathematical alphanumerics, in the middle.
    pub fn apply_replace_mathematical_alphanumerics(&self, builder: TransliteratorConfigBuilder) -> (r: (
        TransliteratorConfigBuilder,
        Option<TransliterationRecipeError>,
    ))
        ensures
            r.0@ == self.spec_apply_replace_mathematical_alphanumerics(builder@),
            r.1 is None,
    {
        if self.replace_mathematical_alphanumerics {
            (builder.insert_middle(TransliteratorConfig::MathematicalAlphanumerics, false), None)
        } else {
            (builder, None)
        }
    }

    /// Adds to the builder what the option asks for: the replacement of roman
    /// numerals, in the middle.
    pub fn apply_replace_roman_numerals(&self, builder: TransliteratorConfigBuilder) -> (r: (
        TransliteratorConfigBuilder,
        Option<TransliterationRecipeError>,
    ))
        ensures
            r.0@ == self.spec_apply_replace_roman_numerals(builder@),
            r.1 is None,
    {
        if self.replace_roman_numerals {
            (builder.insert_middle(TransliteratorConfig::RomanNumerals, false), None)
        } else {
            (builder, None)
        }
    }

    /// Adds to the builder what the option asks for: the replacement of
    /// combined characters, in the middle.
    pub fn apply_replace_combined_characters(&self, builder: TransliteratorConfigBuilder) -> (r: (
        TransliteratorConfigBuilder,
        Option<TransliterationRecipeError>,
    ))
        ensures
            r.0@ == self.spec_apply_replace_combined_characters(builder@),
            r.1 is None,
    {
        if self.replace_combined_characters {
            (builder.insert_middle(TransliteratorConfig::Combined, false), None)
        } else {
            (builder, None)
        }
    }

    /// Adds to the builder what the option asks for: the replacement of
    /// hyphens, in the middle, with the precedence that the recipe names or
    /// the default one.
    pub fn apply_replace_hyphens(&self, builder: TransliteratorConfigBuilder) -> (r: (
        TransliteratorConfigBuilder,
        Option<TransliterationRecipeError>,
    ))
        ensures
            r.0@ == self.spec_apply_replace_hyphens(builder@),
            r.1 is None,
    {
        match &self.replace_hyphens {
            ReplaceHyphensOptions::Yes { precedence } => {
                let mut chosen: Vec<HyphensTransliterationVariant> = Vec::new();
                if precedence.len() == 0 {
                    chosen.push(HyphensTransliterationVariant::Jisx0208_90Windows);
                    chosen.push(HyphensTransliterationVariant::Jisx0201);
                    assert(chosen@ =~= default_precedence());
                } else {
                    let mut i: usize = 0;
                    while i < precedence.len()
                        invariant
                            i <= precedence.len(),
                            chosen@ == precedence@.take(i as int),
                        decreases precedence.len() - i,
                    {
                        chosen.push(precedence[i]);
                        assert(chosen@ =~= precedence@.take(i + 1));
                        i += 1;
                    }
                    assert(chosen@ =~= precedence@);
                }
                (
                    builder.insert_middle(
                        TransliteratorConfig::Hyphens(
                            HyphensTransliteratorOptions { precedence: chosen },
                        ),
                        false,
                    ),
                    None,
                )
            },
            ReplaceHyphensOptions::No => (builder, None),
        }
    }

    /// Adds to the builder what the option asks for: the composition of sound
    /// marks, at the head.
    pub fn apply_combine_decomposed_hiraganas_and_katakanas(
        &self,
        builder: TransliteratorConfigBuilder,
    ) -> (r: (TransliteratorConfigBuilder, Option<TransliterationRecipeError>))
        ensures
            r.0@ == self.spec_apply_combine_decomposed_hiraganas_and_katakanas(builder@),
            r.1 is None,
    {
        if self.combine_decomposed_hiraganas_and_katakanas {
            (
                builder.insert_head(
                    TransliteratorConfig::HiraKataComposition(
                        HiraKataCompositionTransliteratorOptions {
                            compose_non_combining_marks: true,
                        },
                    ),
                    false,
                ),
                None,
            )
        } else {
            (builder, None)
        }
    }

    /// Adds to the builder what the option asks for: the conversion to full-
    /// width, at the tail; nothing where the recipe asks for both widths.
    pub fn apply_to_fullwidth(&self, builder: TransliteratorConfigBuilder) -> (r: (
        TransliteratorConfigBuilder,
        Option<TransliterationRecipeError>,
    ))
        ensures
            r.0@ == self.spec_apply_to_fullwidth(builder@),
            r.1 is Some <==> self.spec_conflict(),
            r.1 matches Some(e) ==> e.spec_to_string() == fullwidth_conflict_text(),
    {
        match self.to_fullwidth {
            ToFullWidthOptions::Yes { u005c_as_yen_sign } => {
                match self.to_halfwidth {
                    ToHalfwidthOptions::Yes { .. } => {
                        let mut reasons: Vec<String> = Vec::new();
                        reasons.push(
                            String::from_str("to_fullwidth and to_halfwidth are mutually exclusive"),
                        );
                        let e = TransliterationRecipeError::ToFullwidthError(reasons);
                        assert(e.spec_reasons() =~= seq![
                            "to_fullwidth and to_halfwidth are mutually exclusive"@,
                        ]);
                        (builder, Some(e))
                    },
                    ToHalfwidthOptions::No => {
                        let mut options = Jisx0201AndAlikeTransliteratorOptions::default();
                        options.u005c_as_yen_sign = Some(u005c_as_yen_sign);
                        (
                            builder.insert_tail(
                                TransliteratorConfig::Jisx0201AndAlike {
                                    fullwidth_to_halfwidth: false,
                                    options,
                                },
                                false,
                            ),
                            None,
                        )
                    },
                }
            },
            ToFullWidthOptions::No => (builder, None),
        }
    }

    /// Adds to the builder what the option asks for: the conversion to half-
    /// width, at the tail; nothing where the recipe asks for both widths.
    pub fn apply_to_halfwidth(&self, builder: TransliteratorConfigBuilder) -> (r: (
        TransliteratorConfigBuilder,
        Option<TransliterationRecipeError>,
    ))
        ensures
            r.0@ == self.spec_apply_to_halfwidth(builder@),
            r.1 is Some <==> self.spec_conflict(),
            r.1 matches Some(e) ==> e.spec_to_string() == halfwidth_conflict_text(),
    {
        match self.to_halfwidth {
            ToHalfwidthOptions::Yes { hankaku_kana } => {
                match self.to_fullwidth {
                    ToFullWidthOptions::Yes { .. } => {
                        let mut reasons: Vec<String> = Vec::new();
                        reasons.push(
                            String::from_str("to_halfwidth and to_fullwidth are mutually exclusive"),
                        );
                        let e = TransliterationRecipeError::ToHalfwidthError(reasons);
                        assert(e.spec_reasons() =~= seq![
                            "to_halfwidth and to_fullwidth are mutually exclusive"@,
                        ]);
                        (builder, Some(e))
                    },
                    ToFullWidthOptions::No => {
                        let mut options = Jisx0201AndAlikeTransliteratorOptions::default();
                        options.convert_gl = true;
                        options.convert_gr = hankaku_kana;
                        (
                            builder.insert_tail(
                                TransliteratorConfig::Jisx0201AndAlike {
                                    fullwidth_to_halfwidth: true,
                                    options,
                                },
                                false,
                            ),
                            None,
                        )
                    },
                }
            },
            ToHalfwidthOptions::No => (builder, None),
        }
    }

    /// Adds to the builder what the option asks for: the removal of variation
    /// sequences: the conversions of variation sequences at the head and at
    /// the tail.
    pub fn apply_remove_ivs_svs(&self, builder: TransliteratorConfigBuilder) -> (r: (
        TransliteratorConfigBuilder,
        Option<TransliterationRecipeError>,
    ))
        ensures
            r.0@ == self.spec_apply_remove_ivs_svs(builder@),
            r.1 is None,
    {
        match self.remove_ivs_svs {
            RemoveIVSSVSOptions::Yes { drop_all_selectors } => (
                self.remove_ivs_svs_helper(builder, drop_all_selectors),
                None,
            ),
            RemoveIVSSVSOptions::No => (builder, None),
        }
    }

    /// Adds to the builder what the option asks for: the replacement of
    /// circled or squared characters, in the middle.
    pub fn apply_replace_circled_or_squared_characters(
        &self,
        builder: TransliteratorConfigBuilder,
    ) -> (r: (TransliteratorConfigBuilder, Option<TransliterationRecipeError>))
        ensures
            r.0@ == self.spec_apply_replace_circled_or_squared_characters(builder@),
            r.1 is None,
    {
        match self.replace_circled_or_squared_characters {
            ReplaceCircledOrSquaredCharactersOptions::Yes { exclude_emojis } => (
                builder.insert_middle(
                    TransliteratorConfig::CircledOrSquared(
                        CircledOrSquaredTransliteratorOptions { include_emojis: !exclude_emojis },
                    ),
                    false,
                ),
                None,
            ),
            ReplaceCircledOrSquaredCharactersOptions::No => (builder, None),
        }
    }

    /// Resolves the recipe into the configurations of a pipeline, in the
    /// order in which the stages are to run.
    ///
    /// Fails where both widths are asked for, and then tells of every
    /// option that is wrong.
    pub fn build(&self) -> (r: Result<Vec<TransliteratorConfig>, TransliteratorFactoryError>)
        ensures
            r is Err <==> self.spec_conflict(),
            r matches Ok(configs) ==> config_views(configs@) == self.spec_build(),
            r matches Err(e) ==> e.message@ == conflict_message(),
    {
        let builder = TransliteratorConfigBuilder::new();
        let mut errors: Vec<TransliterationRecipeError> = Vec::new();
        let (builder, e) = self.apply_kanji_old_new(builder);
        let (builder, e) = self.apply_replace_suspicious_hyphens_to_prolonged_sound_marks(builder);
        let (builder, e) = self.apply_replace_circled_or_squared_characters(builder);
        let (builder, e) = self.apply_replace_combined_characters(builder);
        let (builder, e) = self.apply_replace_ideographic_annotations(builder);
        let (builder, e) = self.apply_replace_radicals(builder);
        let (builder, e) = self.apply_replace_spaces(builder);
        let (builder, e) = self.apply_replace_hyphens(builder);
        let (builder, e) = self.apply_replace_mathematical_alphanumerics(builder);
        let (builder, e) = self.apply_replace_roman_numerals(builder);
        let (builder, e) = self.apply_combine_decomposed_hiraganas_and_katakanas(builder);
        let (builder, e) = self.apply_to_fullwidth(builder);
        if let Some(e) = e {
            errors.push(e);
        }
        let (builder, e) = self.apply_hira_kata(builder);
        let (builder, e) = self.apply_replace_japanese_iteration_marks(builder);
        let (builder, e) = self.apply_to_halfwidth(builder);
        if let Some(e) = e {
            errors.push(e);
        }
        let (builder, e) = self.apply_remove_ivs_svs(builder);
        if errors.len() > 0 {
            let mut messages: Vec<String> = Vec::new();
            let mut i: usize = 0;
            while i < errors.len()
                invariant
                    i <= errors.len(),
                    messages@.len() == i,
                    forall|j: int|
                        0 <= j < i ==> (#[trigger] messages@[j])@ == errors@[j].spec_to_string(),
                decreases errors.len() - i,
            {
                messages.push(errors[i].to_string());
                i += 1;
            }
            let message = join_messages(&messages, "; ");
            proof {
                let texts = string_views(messages@);
                assert(texts.len() == 2);
                assert(texts[0] == fullwidth_conflict_text());
                assert(texts[1] == halfwidth_conflict_text());
                assert(texts.drop_last().len() == 1);
                assert(texts.drop_last()[0] == texts[0]);
                assert(join_texts(texts.drop_last(), "; "@) == texts[0]);
            }
            return Err(TransliteratorFactoryError::new(message));
        }
        Ok(builder.build())
    }
}

} // verus!
