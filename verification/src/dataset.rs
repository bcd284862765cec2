//! The data that the table-driven stages work from. The library holds no
//! table of its own: whoever builds a pipeline hands the tables in.

use vstd::prelude::*;
use vstd::string::*;
use crate::transliterators::ivs_svs_base::IvsSvsBaseRecord;

verus! {

/// `phf::Map`, a map that is fixed when the program is compiled.
#[verifier::external_type_specification]
#[verifier::external_body]
#[verifier::reject_recursive_types(K)]
#[verifier::reject_recursive_types(V)]
pub struct ExPhfMap<K: 'static, V: 'static>(phf::Map<K, V>);

/// What a table of strings holds: for each key the text it maps to.
pub uninterp spec fn table_entries(table: phf::Map<&'static str, &'static str>) -> Map<
    Seq<char>,
    Seq<char>,
>;

/// Whether a look-up in `table` comes back: the table has no displacement,
/// or neither the number of its displacements nor the number of its
/// entries is zero as a number of 32 bits. It holds of the tables that
/// `phf`'s macros and its generator make. The fields of a table can be set
/// by hand, and on one with a displacement and no entry `phf::Map::get`
/// divides by zero.
pub uninterp spec fn table_usable(table: phf::Map<&'static str, &'static str>) -> bool;

/// Whether `table` has a value for no key.
pub open spec fn holds_nothing(table: phf::Map<&'static str, &'static str>) -> bool {
    forall|key: Seq<char>| !(#[trigger] table_entries(table).contains_key(key))
}

/// A table without entries, as `phf::Map::new` makes it, put where it
/// lives as long as the program. It has no displacement, so that a look-up
/// in it comes back, and finds nothing.
#[verifier::external_body]
pub(crate) fn empty_table() -> (r: &'static phf::Map<&'static str, &'static str>)
    ensures
        table_usable(*r),
        holds_nothing(*r),
{
    Box::leak(Box::new(phf::Map::new()))
}

/// Looks `key` up in `table`, as `phf::Map::get` does: the value stored
/// under the key, or `None` where the table has no such key.
#[verifier::external_body]
pub(crate) fn table_get(table: &phf::Map<&'static str, &'static str>, key: &str) -> (r: Option<
    &'static str,
>)
    requires
        table_usable(*table),
    ensures
        r is Some <==> table_entries(*table).contains_key(key@),
        r matches Some(v) ==> v@ == table_entries(*table)[key@],
{
    table.get(key).copied()
}

/// What the standards have a hyphen turn into.
#[derive(Debug, Clone)]
pub struct HyphensRecord {
    pub ascii: Option<String>,
    pub jisx0201: Option<String>,
    pub jisx0208_90: Option<String>,
    pub jisx0208_90_windows: Option<String>,
    pub jisx0208_verbatim: Option<String>,
}

/// What a circled or squared character encloses.
#[derive(Debug, Clone)]
pub struct CircledOrSquaredRecord {
    /// The text that the character encloses.
    pub rendering: String,
    /// `"circle"` or `"square"`.
    pub type_: String,
    /// Whether the character is an emoji.
    pub emoji: bool,
}

/// The keys of a list of entries.
pub open spec fn entry_keys<T>(entries: Seq<(String, T)>) -> Seq<Seq<char>> {
    entries.map_values(|e: (String, T)| e.0@)
}

/// Position of the last of the first `n` keys that is `key`: the entry
/// that a map filled entry by entry would hold for it.
pub open spec fn find_key(keys: Seq<Seq<char>>, key: Seq<char>, n: int) -> Option<int>
    decreases n,
{
    if n <= 0 {
        None
    } else if keys[n - 1] == key {
        Some(n - 1)
    } else {
        find_key(keys, key, n - 1)
    }
}

/// [`find_key`] gives a position among the first `n` that holds the key.
pub proof fn lemma_find_key(keys: Seq<Seq<char>>, key: Seq<char>, n: int)
    requires
        0 <= n <= keys.len(),
    ensures
        find_key(keys, key, n) matches Some(i) ==> 0 <= i < n && keys[i] == key,
    decreases n,
{
    if n > 0 && keys[n - 1] != key {
        lemma_find_key(keys, key, n - 1);
    }
}

/// Position of the entry for `key`.
pub fn find_entry<T>(entries: &Vec<(String, T)>, key: &String) -> (r: Option<usize>)
    ensures
        match r {
            Some(i) => i < entries@.len() && find_key(
                entry_keys(entries@),
                key@,
                entries@.len() as int,
            ) == Some(i as int),
            None => find_key(entry_keys(entries@), key@, entries@.len() as int) is None,
        },
{
    let ghost keys = entry_keys(entries@);
    let mut n: usize = entries.len();
    while n > 0
        invariant
            n <= entries.len(),
            keys == entry_keys(entries@),
            find_key(keys, key@, entries@.len() as int) == find_key(keys, key@, n as int),
        decreases n,
    {
        assert(keys[n - 1] == entries@[n - 1].0@);
        if entries[n - 1].0 == *key {
            return Some(n - 1);
        }
        n -= 1;
    }
    None
}

/// The tables of the stages that look characters up.
pub struct Dataset {
    pub spaces: &'static phf::Map<&'static str, &'static str>,
    pub radicals: &'static phf::Map<&'static str, &'static str>,
    pub mathematical_alphanumerics: &'static phf::Map<&'static str, &'static str>,
    pub ideographic_annotations: &'static phf::Map<&'static str, &'static str>,
    pub kanji_old_new: &'static phf::Map<&'static str, &'static str>,
    pub combined: &'static phf::Map<&'static str, &'static str>,
    pub roman_numerals: &'static phf::Map<&'static str, &'static str>,
    pub hyphens: Vec<(String, HyphensRecord)>,
    pub ivs_svs_base: Vec<IvsSvsBaseRecord>,
    pub circled_or_squared: Vec<(String, CircledOrSquaredRecord)>,
}

impl Dataset {
    /// Whether a look-up in each of the tables comes back.
    pub open spec fn usable(&self) -> bool {
        &&& table_usable(*self.spaces)
        &&& table_usable(*self.radicals)
        &&& table_usable(*self.mathematical_alphanumerics)
        &&& table_usable(*self.ideographic_annotations)
        &&& table_usable(*self.kanji_old_new)
        &&& table_usable(*self.combined)
        &&& table_usable(*self.roman_numerals)
    }

    /// A data set whose tables hold nothing.
    pub fn empty() -> (r: Dataset)
        ensures
            r.usable(),
            holds_nothing(*r.spaces),
            holds_nothing(*r.radicals),
            holds_nothing(*r.mathematical_alphanumerics),
            holds_nothing(*r.ideographic_annotations),
            holds_nothing(*r.kanji_old_new),
            holds_nothing(*r.combined),
            holds_nothing(*r.roman_numerals),
            r.hyphens@.len() == 0,
            r.ivs_svs_base@.len() == 0,
            r.circled_or_squared@.len() == 0,
    {
        let table = empty_table();
        Dataset {
            spaces: table,
            radicals: table,
            mathematical_alphanumerics: table,
            ideographic_annotations: table,
            kanji_old_new: table,
            combined: table,
            roman_numerals: table,
            hyphens: Vec::new(),
            ivs_svs_base: Vec::new(),
            circled_or_squared: Vec::new(),
        }
    }
}

} // verus!
