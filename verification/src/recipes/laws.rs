//! What holds of every recipe: no width conversion unless one is asked
//! for, the width conversion at the end, and the replacement of old kanji
//! between the two conversions of variation sequences.

use vstd::prelude::*;
use crate::recipes::{
    default_precedence, find_kind, inserted, lemma_find_kind, prolonged_marks_options,
    BuilderView, HiraKataOptions, RemoveIVSSVSOptions, ReplaceCircledOrSquaredCharactersOptions,
    ReplaceHyphensOptions, ToFullWidthOptions, ToHalfwidthOptions, TransliterationRecipe,
};
use crate::transliterators::jisx0201_and_alike::spec_default_options;
use crate::transliterators::{
    kind_of, Charset, CircledOrSquaredTransliteratorOptions, ConfigView,
    HiraKataCompositionTransliteratorOptions, HiraKataMode, HiraKataTransliteratorOptions,
    IvsSvsBaseMode, IvsSvsBaseTransliteratorOptions, Jisx0201AndAlikeTransliteratorOptions,
};

verus! {

/// Whether `list` holds a configuration of kind `kind`.
pub open spec fn has_kind(list: Seq<ConfigView>, kind: int) -> bool {
    exists|i: int| 0 <= i < list.len() && kind_of(#[trigger] list[i]) == kind
}

/// The kind of the width conversion.
pub open spec fn width_kind() -> int {
    3
}

/// The kind of the conversion of variation sequences.
pub open spec fn variation_kind() -> int {
    7
}

/// A list with a configuration put in holds the kinds it held and the
/// kind of that configuration, and no other.
pub proof fn lemma_inserted_kinds(
    list: Seq<ConfigView>,
    config: ConfigView,
    force_replace: bool,
    at_end: bool,
    kind: int,
)
    ensures
        has_kind(inserted(list, config, force_replace, at_end), kind) <==> (has_kind(list, kind)
            || kind_of(config) == kind),
{
    lemma_find_kind(list, kind_of(config));
    let after = inserted(list, config, force_replace, at_end);
    if has_kind(after, kind) {
        let i = choose|i: int| 0 <= i < after.len() && kind_of(#[trigger] after[i]) == kind;
        match find_kind(list, kind_of(config)) {
            Some(p) => {
                if force_replace && i != p {
                    assert(after[i] == list[i]);
                } else if force_replace {
                    assert(kind_of(list[p]) == kind_of(config));
                } else {
                    assert(after[i] == list[i]);
                }
            },
            None => {
                if at_end {
                    if i < list.len() {
                        assert(after[i] == list[i]);
                    }
                } else {
                    if i > 0 {
                        assert(after[i] == list[i - 1]);
                    }
                }
            },
        }
    }
    if has_kind(list, kind) {
        let i = choose|i: int| 0 <= i < list.len() && kind_of(#[trigger] list[i]) == kind;
        match find_kind(list, kind_of(config)) {
            Some(p) => {
                if force_replace {
                    if i == p {
                        assert(kind_of(after[p]) == kind);
                    } else {
                        assert(after[i] == list[i]);
                    }
                }
            },
            None => {
                if at_end {
                    assert(after[i] == list[i]);
                } else {
                    assert(after[i + 1] == list[i]);
                }
            },
        }
    }
    if kind_of(config) == kind {
        match find_kind(list, kind_of(config)) {
            Some(p) => {
                if force_replace {
                    assert(after[p] == config);
                } else {
                    assert(kind_of(after[p]) == kind);
                }
            },
            None => {
                if at_end {
                    assert(after[list.len() as int] == config);
                } else {
                    assert(after[0] == config);
                }
            },
        }
    }
}

/// Where in a builder a stage is put.
pub enum Place {
    Head,
    Middle,
    Tail,
}

/// `b` with a stage put in at `place`.
pub open spec fn put(b: BuilderView, place: Place, config: ConfigView, force: bool) -> BuilderView {
    match place {
        Place::Head => b.insert_head(config, force),
        Place::Middle => b.insert_middle(config, force),
        Place::Tail => b.insert_tail(config, force),
    }
}

/// Whether `p` holds of `b`.
pub open spec fn holds(p: spec_fn(BuilderView) -> bool, b: BuilderView) -> bool {
    p(b)
}

/// Whether `ok` admits putting `config` in at `place`.
pub open spec fn admits(
    ok: spec_fn(Place, ConfigView, bool) -> bool,
    place: Place,
    config: ConfigView,
    force: bool,
) -> bool {
    ok(place, config, force)
}

/// Whatever `ok` admits keeps `p`.
pub open spec fn kept_by(
    p: spec_fn(BuilderView) -> bool,
    ok: spec_fn(Place, ConfigView, bool) -> bool,
) -> bool {
    forall|b: BuilderView, place: Place, config: ConfigView, force: bool|
        holds(p, b) && admits(ok, place, config, force) ==> holds(
            p,
            #[trigger] put(b, place, config, force),
        )
}

/// The configuration of the stage that turns base characters into
/// variation sequences, as a recipe sets it up.
pub open spec fn selector_config(charset: Charset) -> ConfigView {
    ConfigView::IvsSvsBase(
        IvsSvsBaseTransliteratorOptions {
            mode: IvsSvsBaseMode::IvsOrSvs(false),
            charset,
            drop_selectors_altogether: false,
        },
    )
}

/// The configuration of the stage that turns variation sequences into
/// base characters, as a recipe sets it up.
pub open spec fn base_config(charset: Charset, drop_selectors_altogether: bool) -> ConfigView {
    ConfigView::IvsSvsBase(
        IvsSvsBaseTransliteratorOptions {
            mode: IvsSvsBaseMode::Base,
            charset,
            drop_selectors_altogether,
        },
    )
}

/// The configuration of the composition of sound marks, as a recipe sets
/// it up.
pub open spec fn composition_config() -> ConfigView {
    ConfigView::HiraKataComposition(
        HiraKataCompositionTransliteratorOptions { compose_non_combining_marks: true },
    )
}

impl TransliterationRecipe {
    /// Whether `ok` admits every stage that the recipe puts in after the
    /// replacement of old kanji.
    pub open spec fn stages_admitted(&self, ok: spec_fn(Place, ConfigView, bool) -> bool) -> bool {
        &&& self.replace_suspicious_hyphens_to_prolonged_sound_marks ==> admits(
            ok,
            Place::Middle,
            ConfigView::ProlongedSoundMarks(prolonged_marks_options()),
            false,
        )
        &&& self.replace_circled_or_squared_characters matches ReplaceCircledOrSquaredCharactersOptions::Yes {
            exclude_emojis,
        } ==> admits(
            ok,
            Place::Middle,
            ConfigView::CircledOrSquared(
                CircledOrSquaredTransliteratorOptions { include_emojis: !exclude_emojis },
            ),
            false,
        )
        &&& self.replace_combined_characters ==> admits(ok, Place::Middle, ConfigView::Combined, false)
        &&& self.replace_ideographic_annotations ==> admits(
            ok,
            Place::Middle,
            ConfigView::IdeographicAnnotations,
            false,
        )
        &&& self.replace_radicals ==> admits(ok, Place::Middle, ConfigView::Radicals, false)
        &&& self.replace_spaces ==> admits(ok, Place::Middle, ConfigView::Spaces, false)
        &&& self.replace_hyphens matches ReplaceHyphensOptions::Yes { precedence } ==> admits(
            ok,
            Place::Middle,
            ConfigView::Hyphens {
                precedence: if precedence@.len() == 0 {
                    default_precedence()
                } else {
                    precedence@
                },
            },
            false,
        )
        &&& self.replace_mathematical_alphanumerics ==> admits(
            ok,
            Place::Middle,
            ConfigView::MathematicalAlphanumerics,
            false,
        )
        &&& self.replace_roman_numerals ==> admits(ok, Place::Middle, ConfigView::RomanNumerals, false)
        &&& self.combine_decomposed_hiraganas_and_katakanas ==> admits(
            ok,
            Place::Head,
            composition_config(),
            false,
        )
        &&& self.hira_kata == HiraKataOptions::HiraToKata ==> admits(
            ok,
            Place::Middle,
            ConfigView::HiraKata(HiraKataTransliteratorOptions { mode: HiraKataMode::HiraToKata }),
            false,
        )
        &&& self.hira_kata == HiraKataOptions::KataToHira ==> admits(
            ok,
            Place::Middle,
            ConfigView::HiraKata(HiraKataTransliteratorOptions { mode: HiraKataMode::KataToHira }),
            false,
        )
        &&& self.replace_japanese_iteration_marks ==> admits(
            ok,
            Place::Head,
            composition_config(),
            false,
        ) && admits(ok, Place::Middle, ConfigView::JapaneseIterationMarks, false)
        &&& self.remove_ivs_svs matches RemoveIVSSVSOptions::Yes { drop_all_selectors } ==> admits(
            ok,
            Place::Head,
            selector_config(self.charset),
            true,
        ) && admits(ok, Place::Tail, base_config(self.charset, drop_all_selectors), true)
    }

    /// The builder after the options that come after the replacement of
    /// old kanji and before the width conversion to full-width.
    pub open spec fn spec_resolve_before_fullwidth(&self, b1: BuilderView) -> BuilderView {
        let b2 = self.spec_apply_replace_suspicious_hyphens_to_prolonged_sound_marks(b1);
        let b3 = self.spec_apply_replace_circled_or_squared_characters(b2);
        let b4 = self.spec_apply_replace_combined_characters(b3);
        let b5 = self.spec_apply_replace_ideographic_annotations(b4);
        let b6 = self.spec_apply_replace_radicals(b5);
        let b7 = self.spec_apply_replace_spaces(b6);
        let b8 = self.spec_apply_replace_hyphens(b7);
        let b9 = self.spec_apply_replace_mathematical_alphanumerics(b8);
        let b10 = self.spec_apply_replace_roman_numerals(b9);
        self.spec_apply_combine_decomposed_hiraganas_and_katakanas(b10)
    }

    /// The builder after the two options that come between the width
    /// conversions.
    pub open spec fn spec_resolve_between_widths(&self, b12: BuilderView) -> BuilderView {
        self.spec_apply_replace_japanese_iteration_marks(self.spec_apply_hira_kata(b12))
    }

    /// What [`kept_by`] keeps, the stages that come before the conversion
    /// to full-width keep.
    pub proof fn lemma_kept_before_fullwidth(
        &self,
        p: spec_fn(BuilderView) -> bool,
        ok: spec_fn(Place, ConfigView, bool) -> bool,
        b: BuilderView,
    )
        requires
            kept_by(p, ok),
            self.stages_admitted(ok),
            holds(p, b),
        ensures
            holds(p, self.spec_resolve_before_fullwidth(b)),
    {
        let b2 = self.spec_apply_replace_suspicious_hyphens_to_prolonged_sound_marks(b);
        assert(holds(p, b2)) by {
            let c = ConfigView::ProlongedSoundMarks(prolonged_marks_options());
            assert(b.insert_middle(c, false) == put(b, Place::Middle, c, false));
        }
        let b3 = self.spec_apply_replace_circled_or_squared_characters(b2);
        assert(holds(p, b3)) by {
            if let ReplaceCircledOrSquaredCharactersOptions::Yes { exclude_emojis } =
                self.replace_circled_or_squared_characters {
                let c = ConfigView::CircledOrSquared(
                    CircledOrSquaredTransliteratorOptions { include_emojis: !exclude_emojis },
                );
                assert(b3 == put(b2, Place::Middle, c, false));
            }
        }
        let b4 = self.spec_apply_replace_combined_characters(b3);
        assert(holds(p, b4)) by {
            assert(b3.insert_middle(ConfigView::Combined, false) == put(
                b3,
                Place::Middle,
                ConfigView::Combined,
                false,
            ));
        }
        let b5 = self.spec_apply_replace_ideographic_annotations(b4);
        assert(holds(p, b5)) by {
            assert(b4.insert_middle(ConfigView::IdeographicAnnotations, false) == put(
                b4,
                Place::Middle,
                ConfigView::IdeographicAnnotations,
                false,
            ));
        }
        let b6 = self.spec_apply_replace_radicals(b5);
        assert(holds(p, b6)) by {
            assert(b5.insert_middle(ConfigView::Radicals, false) == put(
                b5,
                Place::Middle,
                ConfigView::Radicals,
                false,
            ));
        }
        let b7 = self.spec_apply_replace_spaces(b6);
        assert(holds(p, b7)) by {
            assert(b6.insert_middle(ConfigView::Spaces, false) == put(
                b6,
                Place::Middle,
                ConfigView::Spaces,
                false,
            ));
        }
        let b8 = self.spec_apply_replace_hyphens(b7);
        assert(holds(p, b8)) by {
            if let ReplaceHyphensOptions::Yes { precedence } = self.replace_hyphens {
                let c = ConfigView::Hyphens {
                    precedence: if precedence@.len() == 0 {
                        default_precedence()
                    } else {
                        precedence@
                    },
                };
                assert(b8 == put(b7, Place::Middle, c, false));
            }
        }
        let b9 = self.spec_apply_replace_mathematical_alphanumerics(b8);
        assert(holds(p, b9)) by {
            assert(b8.insert_middle(ConfigView::MathematicalAlphanumerics, false) == put(
                b8,
                Place::Middle,
                ConfigView::MathematicalAlphanumerics,
                false,
            ));
        }
        let b10 = self.spec_apply_replace_roman_numerals(b9);
        assert(holds(p, b10)) by {
            assert(b9.insert_middle(ConfigView::RomanNumerals, false) == put(
                b9,
                Place::Middle,
                ConfigView::RomanNumerals,
                false,
            ));
        }
        let b11 = self.spec_apply_combine_decomposed_hiraganas_and_katakanas(b10);
        assert(holds(p, b11)) by {
            assert(b10.insert_head(composition_config(), false) == put(
                b10,
                Place::Head,
                composition_config(),
                false,
            ));
        }
    }

    /// What [`kept_by`] keeps, the stages that come between the width
    /// conversions keep.
    pub proof fn lemma_kept_between_widths(
        &self,
        p: spec_fn(BuilderView) -> bool,
        ok: spec_fn(Place, ConfigView, bool) -> bool,
        b: BuilderView,
    )
        requires
            kept_by(p, ok),
            self.stages_admitted(ok),
            holds(p, b),
        ensures
            holds(p, self.spec_resolve_between_widths(b)),
    {
        let b13 = self.spec_apply_hira_kata(b);
        assert(holds(p, b13)) by {
            let to_kata = ConfigView::HiraKata(
                HiraKataTransliteratorOptions { mode: HiraKataMode::HiraToKata },
            );
            let to_hira = ConfigView::HiraKata(
                HiraKataTransliteratorOptions { mode: HiraKataMode::KataToHira },
            );
            assert(b.insert_middle(to_kata, false) == put(b, Place::Middle, to_kata, false));
            assert(b.insert_middle(to_hira, false) == put(b, Place::Middle, to_hira, false));
        }
        if self.replace_japanese_iteration_marks {
            let h = b13.insert_head(composition_config(), false);
            assert(h == put(b13, Place::Head, composition_config(), false));
            assert(h.insert_middle(ConfigView::JapaneseIterationMarks, false) == put(
                h,
                Place::Middle,
                ConfigView::JapaneseIterationMarks,
                false,
            ));
        }
    }

    /// What [`kept_by`] keeps, the removal of variation sequences keeps.
    pub proof fn lemma_kept_by_removal(
        &self,
        p: spec_fn(BuilderView) -> bool,
        ok: spec_fn(Place, ConfigView, bool) -> bool,
        b: BuilderView,
    )
        requires
            kept_by(p, ok),
            self.stages_admitted(ok),
            holds(p, b),
        ensures
            holds(p, self.spec_apply_remove_ivs_svs(b)),
    {
        if let RemoveIVSSVSOptions::Yes { drop_all_selectors } = self.remove_ivs_svs {
            let h = b.insert_head(selector_config(self.charset), true);
            assert(h == put(b, Place::Head, selector_config(self.charset), true));
            let c = base_config(self.charset, drop_all_selectors);
            assert(h.insert_tail(c, true) == put(h, Place::Tail, c, true));
        }
    }

    /// The pipeline is what the options give when taken in their order.
    pub proof fn lemma_resolve_unfolds(&self)
        ensures
            self.spec_resolve() == self.spec_apply_remove_ivs_svs(
                self.spec_apply_to_halfwidth(
                    self.spec_resolve_between_widths(
                        self.spec_apply_to_fullwidth(
                            self.spec_resolve_before_fullwidth(
                                self.spec_apply_kanji_old_new(
                                    BuilderView {
                                        head: Seq::<ConfigView>::empty(),
                                        tail: Seq::<ConfigView>::empty(),
                                    },
                                ),
                            ),
                        ),
                    ),
                ),
            ),
    {
    }
}

/// Neither list of `b` holds a configuration of kind `kind`.
pub open spec fn absent(b: BuilderView, kind: int) -> bool {
    !has_kind(b.head, kind) && !has_kind(b.tail, kind)
}

/// Putting a configuration of another kind into a builder does not bring
/// a kind in.
pub proof fn lemma_insert_keeps_absent(b: BuilderView, config: ConfigView, force: bool, kind: int)
    requires
        absent(b, kind),
        kind_of(config) != kind,
    ensures
        absent(b.insert_head(config, force), kind),
        absent(b.insert_middle(config, force), kind),
        absent(b.insert_tail(config, force), kind),
{
    lemma_inserted_kinds(b.head, config, force, false, kind);
    lemma_inserted_kinds(b.tail, config, force, false, kind);
    lemma_inserted_kinds(b.tail, config, force, true, kind);
}

/// A recipe that asks for neither width resolves into a pipeline without
/// a width conversion.
pub proof fn lemma_no_width_conversion(recipe: &TransliterationRecipe)
    requires
        recipe.to_fullwidth is No,
        recipe.to_halfwidth is No,
    ensures
        !has_kind(recipe.spec_build(), width_kind()),
{
    let k = width_kind();
    let p = |b: BuilderView| absent(b, k);
    let ok = |place: Place, c: ConfigView, f: bool| kind_of(c) != k;
    assert(kept_by(p, ok)) by {
        assert forall|b: BuilderView, place: Place, c: ConfigView, f: bool|
            holds(p, b) && admits(ok, place, c, f) implies holds(
            p,
            #[trigger] put(b, place, c, f),
        ) by {
            lemma_insert_keeps_absent(b, c, f, k);
        }
    }
    let b0 = BuilderView { head: Seq::<ConfigView>::empty(), tail: Seq::<ConfigView>::empty() };
    let b1 = recipe.spec_apply_kanji_old_new(b0);
    assert(holds(p, b1)) by {
        if recipe.kanji_old_new {
            let h = b0.insert_head(selector_config(recipe.charset), true);
            lemma_insert_keeps_absent(b0, selector_config(recipe.charset), true, k);
            let t = h.insert_tail(base_config(recipe.charset, false), true);
            lemma_insert_keeps_absent(h, base_config(recipe.charset, false), true, k);
            lemma_insert_keeps_absent(t, ConfigView::KanjiOldNew, false, k);
        }
    }
    recipe.lemma_kept_before_fullwidth(p, ok, b1);
    let b11 = recipe.spec_resolve_before_fullwidth(b1);
    let b12 = recipe.spec_apply_to_fullwidth(b11);
    recipe.lemma_kept_between_widths(p, ok, b12);
    let b14 = recipe.spec_resolve_between_widths(b12);
    let b15 = recipe.spec_apply_to_halfwidth(b14);
    recipe.lemma_kept_by_removal(p, ok, b15);
    let b16 = recipe.spec_apply_remove_ivs_svs(b15);
    recipe.lemma_resolve_unfolds();
    assert(absent(b16, k));
    let build = recipe.spec_build();
    if has_kind(build, k) {
        let i = choose|i: int| 0 <= i < build.len() && kind_of(#[trigger] build[i]) == k;
        if i < b16.head.len() {
            assert(build[i] == b16.head[i]);
        } else {
            assert(build[i] == b16.tail[i - b16.head.len()]);
        }
    }
}

/// The tail of `b` ends with a width conversion.
pub open spec fn ends_with_width(b: BuilderView) -> bool {
    b.tail.len() > 0 && kind_of(b.tail.last()) == width_kind()
}

/// A stage put into the head or the middle leaves the end of the tail as
/// it is, and so does a conversion of variation sequences that takes the
/// place of one in the tail.
pub proof fn lemma_insert_keeps_end(b: BuilderView, config: ConfigView)
    requires
        ends_with_width(b),
    ensures
        forall|f: bool| ends_with_width(#[trigger] b.insert_head(config, f)),
        ends_with_width(b.insert_middle(config, false)),
        kind_of(config) == variation_kind() && has_kind(b.tail, variation_kind())
            ==> ends_with_width(b.insert_tail(config, true)),
{
    lemma_find_kind(b.tail, kind_of(config));
    let m = b.insert_middle(config, false);
    match find_kind(b.tail, kind_of(config)) {
        Some(p) => {},
        None => {
            assert(m.tail.last() == b.tail.last());
            if kind_of(config) == variation_kind() && has_kind(b.tail, variation_kind()) {
                assert(false);
            }
        },
    }
}

/// Until a width conversion is put in there is none; and from the
/// replacement of old kanji on, where the recipe asks for it, the tail
/// holds a conversion of variation sequences.
pub open spec fn before_width(kanji_old_new: bool) -> spec_fn(BuilderView) -> bool {
    |b: BuilderView|
        absent(b, width_kind()) && (kanji_old_new ==> has_kind(b.tail, variation_kind()))
}

/// Once a width conversion is put in, the tail ends with it.
pub open spec fn after_width(kanji_old_new: bool) -> spec_fn(BuilderView) -> bool {
    |b: BuilderView| ends_with_width(b) && (kanji_old_new ==> has_kind(b.tail, variation_kind()))
}

/// The stages that leave a width conversion at the end: no width
/// conversion, nothing forced into the middle, and at the tail only a
/// conversion of variation sequences that takes the place of one that is
/// there.
pub open spec fn width_ok(kanji_old_new: bool) -> spec_fn(Place, ConfigView, bool) -> bool {
    |place: Place, c: ConfigView, f: bool|
        kind_of(c) != width_kind() && (place is Tail ==> kind_of(c) == variation_kind() && f
            && kanji_old_new) && (place is Middle ==> !f)
}

/// The two properties of [`before_width`] and [`after_width`] outlast
/// every stage that [`width_ok`] admits.
pub proof fn lemma_width_kept(kanji_old_new: bool)
    ensures
        kept_by(before_width(kanji_old_new), width_ok(kanji_old_new)),
        kept_by(after_width(kanji_old_new), width_ok(kanji_old_new)),
{
    let k = width_kind();
    let v = variation_kind();
    let before = before_width(kanji_old_new);
    let after = after_width(kanji_old_new);
    let ok = width_ok(kanji_old_new);
    assert forall|b: BuilderView, place: Place, c: ConfigView, f: bool|
        holds(before, b) && admits(ok, place, c, f) implies holds(
        before,
        #[trigger] put(b, place, c, f),
    ) by {
        lemma_insert_keeps_absent(b, c, f, k);
        lemma_inserted_kinds(b.tail, c, f, false, v);
        lemma_inserted_kinds(b.tail, c, f, true, v);
    }
    assert forall|b: BuilderView, place: Place, c: ConfigView, f: bool|
        holds(after, b) && admits(ok, place, c, f) implies holds(
        after,
        #[trigger] put(b, place, c, f),
    ) by {
        lemma_insert_keeps_end(b, c);
        lemma_inserted_kinds(b.tail, c, f, false, v);
        lemma_inserted_kinds(b.tail, c, f, true, v);
    }
}

/// [`width_ok`] admits every stage that a recipe puts in after the
/// replacement of old kanji, unless the recipe asks for variation sequences
/// to be removed without asking for old kanji to be replaced.
pub proof fn lemma_width_admitted(recipe: &TransliterationRecipe)
    requires
        recipe.remove_ivs_svs is Yes ==> recipe.kanji_old_new,
    ensures
        recipe.stages_admitted(width_ok(recipe.kanji_old_new)),
{
}

/// After the replacement of old kanji was dealt with, there is no width
/// conversion, and the tail holds a conversion of variation sequences where
/// the recipe asks for old kanji to be replaced.
pub proof fn lemma_width_start(recipe: &TransliterationRecipe)
    ensures
        holds(
            before_width(recipe.kanji_old_new),
            recipe.spec_apply_kanji_old_new(
                BuilderView { head: Seq::<ConfigView>::empty(), tail: Seq::<ConfigView>::empty() },
            ),
        ),
{
    let k = width_kind();
    let v = variation_kind();
    let b0 = BuilderView { head: Seq::<ConfigView>::empty(), tail: Seq::<ConfigView>::empty() };
    if recipe.kanji_old_new {
        let sel = selector_config(recipe.charset);
        let base = base_config(recipe.charset, false);
        let h = b0.insert_head(sel, true);
        lemma_insert_keeps_absent(b0, sel, true, k);
        let t = h.insert_tail(base, true);
        lemma_insert_keeps_absent(h, base, true, k);
        lemma_insert_keeps_absent(t, ConfigView::KanjiOldNew, false, k);
        lemma_inserted_kinds(h.tail, base, true, true, v);
        lemma_inserted_kinds(t.tail, ConfigView::KanjiOldNew, false, false, v);
    }
}

/// Putting a width conversion at the end of a tail that has none makes
/// the tail end with it.
pub proof fn lemma_width_put(b: BuilderView, config: ConfigView, kanji_old_new: bool)
    requires
        holds(before_width(kanji_old_new), b),
        kind_of(config) == width_kind(),
    ensures
        holds(after_width(kanji_old_new), b.insert_tail(config, false)),
{
    lemma_find_kind(b.tail, width_kind());
    lemma_inserted_kinds(b.tail, config, false, true, variation_kind());
}

/// A recipe that asks for one of the widths resolves into a pipeline
/// whose last stage is the width conversion, unless it asks for variation
/// sequences to be removed without asking for old kanji to be replaced.
pub proof fn lemma_width_conversion_last(recipe: &TransliterationRecipe)
    requires
        recipe.to_fullwidth is Yes || recipe.to_halfwidth is Yes,
        !recipe.spec_conflict(),
        recipe.remove_ivs_svs is Yes ==> recipe.kanji_old_new,
    ensures
        recipe.spec_build().len() > 0,
        kind_of(recipe.spec_build().last()) == width_kind(),
{
    let vk = recipe.kanji_old_new;
    let before = before_width(vk);
    let after = after_width(vk);
    let ok = width_ok(vk);
    lemma_width_kept(vk);
    lemma_width_admitted(recipe);
    lemma_width_start(recipe);
    let b0 = BuilderView { head: Seq::<ConfigView>::empty(), tail: Seq::<ConfigView>::empty() };
    let b1 = recipe.spec_apply_kanji_old_new(b0);
    recipe.lemma_kept_before_fullwidth(before, ok, b1);
    let b11 = recipe.spec_resolve_before_fullwidth(b1);
    let b12 = recipe.spec_apply_to_fullwidth(b11);
    let b14 = recipe.spec_resolve_between_widths(b12);
    let b15 = recipe.spec_apply_to_halfwidth(b14);
    if let ToFullWidthOptions::Yes { u005c_as_yen_sign } = recipe.to_fullwidth {
        let c = ConfigView::Jisx0201AndAlike {
            fullwidth_to_halfwidth: false,
            options: Jisx0201AndAlikeTransliteratorOptions {
                u005c_as_yen_sign: Some(u005c_as_yen_sign),
                ..spec_default_options()
            },
        };
        lemma_width_put(b11, c, vk);
        assert(b12 == b11.insert_tail(c, false));
        recipe.lemma_kept_between_widths(after, ok, b12);
        assert(b15 == b14);
    } else {
        assert(b12 == b11);
        recipe.lemma_kept_between_widths(before, ok, b12);
        let hankaku_kana = recipe.to_halfwidth->hankaku_kana;
        let c = ConfigView::Jisx0201AndAlike {
            fullwidth_to_halfwidth: true,
            options: Jisx0201AndAlikeTransliteratorOptions {
                convert_gl: true,
                convert_gr: hankaku_kana,
                ..spec_default_options()
            },
        };
        lemma_width_put(b14, c, vk);
        assert(b15 == b14.insert_tail(c, false));
    }
    recipe.lemma_kept_by_removal(after, ok, b15);
    let b16 = recipe.spec_apply_remove_ivs_svs(b15);
    recipe.lemma_resolve_unfolds();
    assert(holds(after, b16));
    let build = recipe.spec_build();
    assert(build == b16.head + b16.tail);
    assert(build.last() == b16.tail.last());
}

/// Whether `config` is of a stage that turns variation sequences into
/// base characters.
pub open spec fn is_base_config(config: ConfigView) -> bool {
    config matches ConfigView::IvsSvsBase(o) && o.mode == IvsSvsBaseMode::Base
}

/// The head holds the selector stage, and the tail holds the replacement
/// of old kanji before a stage that turns sequences into base characters.
pub open spec fn kanji_in_order(b: BuilderView, charset: Charset) -> bool {
    &&& exists|i: int| 0 <= i < b.head.len() && #[trigger] b.head[i] == selector_config(charset)
    &&& exists|j: int, l: int|
        0 <= j < l < b.tail.len() && #[trigger] b.tail[j] == ConfigView::KanjiOldNew
            && is_base_config(#[trigger] b.tail[l])
}

/// The order of [`kanji_in_order`] outlasts the stages that a recipe puts
/// in after it.
pub proof fn lemma_insert_keeps_order(b: BuilderView, charset: Charset, config: ConfigView, f: bool)
    requires
        kanji_in_order(b, charset),
        kind_of(config) != kind_of(ConfigView::KanjiOldNew),
    ensures
        kind_of(config) != variation_kind() || config == selector_config(charset)
            ==> kanji_in_order(b.insert_head(config, f), charset),
        kind_of(config) != variation_kind() ==> kanji_in_order(b.insert_middle(config, false), charset),
        kind_of(config) != variation_kind() || is_base_config(config) ==> kanji_in_order(
            b.insert_tail(config, f),
            charset,
        ),
{
    let i = choose|i: int| 0 <= i < b.head.len() && #[trigger] b.head[i] == selector_config(charset);
    let (j, l) = choose|j: int, l: int|
        0 <= j < l < b.tail.len() && #[trigger] b.tail[j] == ConfigView::KanjiOldNew
            && is_base_config(#[trigger] b.tail[l]);
    lemma_find_kind(b.head, kind_of(config));
    lemma_find_kind(b.tail, kind_of(config));
    if kind_of(config) != variation_kind() || config == selector_config(charset) {
        let h = b.insert_head(config, f);
        match find_kind(b.head, kind_of(config)) {
            Some(p) => {
                if f && p != i {
                    assert(h.head[i] == b.head[i]);
                } else {
                    assert(h.head[i] == selector_config(charset));
                }
            },
            None => {
                assert(h.head[i + 1] == b.head[i]);
            },
        }
        assert(h.tail[j] == b.tail[j] && h.tail[l] == b.tail[l]);
    }
    if kind_of(config) != variation_kind() {
        let m = b.insert_middle(config, false);
        assert(m.head[i] == b.head[i]);
        match find_kind(b.tail, kind_of(config)) {
            Some(p) => {
                assert(m.tail[j] == b.tail[j] && m.tail[l] == b.tail[l]);
            },
            None => {
                assert(m.tail[j + 1] == b.tail[j] && m.tail[l + 1] == b.tail[l]);
            },
        }
    }
    if kind_of(config) != variation_kind() || is_base_config(config) {
        let t = b.insert_tail(config, f);
        assert(t.head[i] == b.head[i]);
        match find_kind(b.tail, kind_of(config)) {
            Some(p) => {
                assert(p != j);
                assert(t.tail[j] == b.tail[j]);
                if f && p == l {
                    assert(is_base_config(t.tail[l]));
                } else {
                    assert(t.tail[l] == b.tail[l]);
                }
            },
            None => {
                assert(t.tail[j] == b.tail[j] && t.tail[l] == b.tail[l]);
            },
        }
    }
}

/// The order of [`kanji_in_order`], as a property of builders.
pub open spec fn in_order(charset: Charset) -> spec_fn(BuilderView) -> bool {
    |b: BuilderView| kanji_in_order(b, charset)
}

/// The stages that leave the order of [`kanji_in_order`] as it is.
pub open spec fn order_ok(charset: Charset) -> spec_fn(Place, ConfigView, bool) -> bool {
    |place: Place, c: ConfigView, f: bool|
        kind_of(c) != kind_of(ConfigView::KanjiOldNew) && (match place {
            Place::Head => kind_of(c) != variation_kind() || c == selector_config(charset),
            Place::Middle => kind_of(c) != variation_kind() && !f,
            Place::Tail => kind_of(c) != variation_kind() || is_base_config(c),
        })
}

/// The order of [`kanji_in_order`] outlasts every stage that [`order_ok`]
/// admits.
pub proof fn lemma_order_kept(charset: Charset)
    ensures
        kept_by(in_order(charset), order_ok(charset)),
{
    let p = in_order(charset);
    let ok = order_ok(charset);
    assert forall|b: BuilderView, place: Place, c: ConfigView, f: bool|
        holds(p, b) && admits(ok, place, c, f) implies holds(p, #[trigger] put(b, place, c, f)) by {
        lemma_insert_keeps_order(b, charset, c, f);
    }
}

/// [`order_ok`] admits every stage that a recipe puts in after the
/// replacement of old kanji.
pub proof fn lemma_order_admitted(recipe: &TransliterationRecipe)
    ensures
        recipe.stages_admitted(order_ok(recipe.charset)),
{
}

/// Dealing with the replacement of old kanji sets up the order of
/// [`kanji_in_order`].
pub proof fn lemma_order_start(recipe: &TransliterationRecipe)
    requires
        recipe.kanji_old_new,
    ensures
        kanji_in_order(
            recipe.spec_apply_kanji_old_new(
                BuilderView { head: Seq::<ConfigView>::empty(), tail: Seq::<ConfigView>::empty() },
            ),
            recipe.charset,
        ),
{
    let cs = recipe.charset;
    let b0 = BuilderView { head: Seq::<ConfigView>::empty(), tail: Seq::<ConfigView>::empty() };
    let b1 = recipe.spec_apply_kanji_old_new(b0);
    let base = base_config(cs, false);
    let h0 = b0.insert_head(selector_config(cs), true);
    let h1 = h0.insert_tail(base, true);
    assert(h0.head =~= seq![selector_config(cs)]);
    assert(h1.tail =~= seq![base]);
    lemma_find_kind(h1.tail, kind_of(ConfigView::KanjiOldNew));
    assert(find_kind(h1.tail, kind_of(ConfigView::KanjiOldNew)) is None);
    assert(b1.tail =~= seq![ConfigView::KanjiOldNew, base]);
    assert(b1.head[0] == selector_config(cs));
    assert(b1.tail[0] == ConfigView::KanjiOldNew && is_base_config(b1.tail[1]));
}

/// A recipe that asks for old kanji to be replaced resolves into a
/// pipeline in which the stage that turns base characters into variation
/// sequences comes before the replacement of old kanji, and a stage that
/// turns the sequences back comes after it.
pub proof fn lemma_kanji_old_new_order(recipe: &TransliterationRecipe)
    requires
        recipe.kanji_old_new,
    ensures
        exists|i: int, j: int, l: int|
            0 <= i < j < l < recipe.spec_build().len() && #[trigger] recipe.spec_build()[i]
                == selector_config(recipe.charset) && #[trigger] recipe.spec_build()[j]
                == ConfigView::KanjiOldNew && is_base_config(#[trigger] recipe.spec_build()[l]),
{
    let cs = recipe.charset;
    let p = in_order(cs);
    let ok = order_ok(cs);
    lemma_order_kept(cs);
    lemma_order_admitted(recipe);
    lemma_order_start(recipe);
    let b0 = BuilderView { head: Seq::<ConfigView>::empty(), tail: Seq::<ConfigView>::empty() };
    let b1 = recipe.spec_apply_kanji_old_new(b0);
    recipe.lemma_kept_before_fullwidth(p, ok, b1);
    let b11 = recipe.spec_resolve_before_fullwidth(b1);
    let b12 = recipe.spec_apply_to_fullwidth(b11);
    assert(holds(p, b12)) by {
        if let ToFullWidthOptions::Yes { u005c_as_yen_sign } = recipe.to_fullwidth {
            let c = ConfigView::Jisx0201AndAlike {
                fullwidth_to_halfwidth: false,
                options: Jisx0201AndAlikeTransliteratorOptions {
                    u005c_as_yen_sign: Some(u005c_as_yen_sign),
                    ..spec_default_options()
                },
            };
            lemma_insert_keeps_order(b11, cs, c, false);
        }
    }
    recipe.lemma_kept_between_widths(p, ok, b12);
    let b14 = recipe.spec_resolve_between_widths(b12);
    let b15 = recipe.spec_apply_to_halfwidth(b14);
    assert(holds(p, b15)) by {
        if let ToHalfwidthOptions::Yes { hankaku_kana } = recipe.to_halfwidth {
            let c = ConfigView::Jisx0201AndAlike {
                fullwidth_to_halfwidth: true,
                options: Jisx0201AndAlikeTransliteratorOptions {
                    convert_gl: true,
                    convert_gr: hankaku_kana,
                    ..spec_default_options()
                },
            };
            lemma_insert_keeps_order(b14, cs, c, false);
        }
    }
    recipe.lemma_kept_by_removal(p, ok, b15);
    let b16 = recipe.spec_apply_remove_ivs_svs(b15);
    recipe.lemma_resolve_unfolds();
    assert(kanji_in_order(b16, cs));
    let i = choose|i: int|
        0 <= i < b16.head.len() && #[trigger] b16.head[i] == selector_config(cs);
    let (j, l) = choose|j: int, l: int|
        0 <= j < l < b16.tail.len() && #[trigger] b16.tail[j] == ConfigView::KanjiOldNew
            && is_base_config(#[trigger] b16.tail[l]);
    let build = recipe.spec_build();
    let n = b16.head.len() as int;
    assert(build == b16.head + b16.tail);
    assert(build[i] == b16.head[i]);
    assert(build[n + j] == b16.tail[j]);
    assert(build[n + l] == b16.tail[l]);
}

} // verus!
