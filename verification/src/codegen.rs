//! Reading of the data sets: code points written as `U+` and hexadecimal
//! digits are turned into the texts that the tables of the stages hold.

use vstd::prelude::*;
use vstd::string::*;
use vstd::utf8::is_scalar;
use crate::dataset::HyphensRecord;
use crate::text::{chars_of, push_char};
use crate::transliterators::ivs_svs_base::{
    option_view, record_views, IvsSvsBaseRecord, RecordView,
};

verus! {

/// What is wrong with a data set.
#[derive(Debug)]
pub enum DatasetError {
    /// The text is not `U+` followed by hexadecimal digits that make a
    /// number of 32 bits.
    InvalidCodepointRepresentation(String),
    /// The number is not a Unicode scalar value.
    InvalidCodepoint(u32),
}

/// The mathematical value of a [`DatasetError`].
pub enum DatasetErrorView {
    InvalidCodepointRepresentation(Seq<char>),
    InvalidCodepoint(u32),
}

impl View for DatasetError {
    type V = DatasetErrorView;

    open spec fn view(&self) -> DatasetErrorView {
        match self {
            DatasetError::InvalidCodepointRepresentation(s) => {
                DatasetErrorView::InvalidCodepointRepresentation(s@)
            },
            DatasetError::InvalidCodepoint(v) => DatasetErrorView::InvalidCodepoint(*v),
        }
    }
}

/// The character that writes the digit `d`.
pub open spec fn digit_char(d: int) -> char {
    if d == 0 {
        '0'
    } else if d == 1 {
        '1'
    } else if d == 2 {
        '2'
    } else if d == 3 {
        '3'
    } else if d == 4 {
        '4'
    } else if d == 5 {
        '5'
    } else if d == 6 {
        '6'
    } else if d == 7 {
        '7'
    } else if d == 8 {
        '8'
    } else {
        '9'
    }
}

/// `value` written in decimal digits, without leading zeros.
pub open spec fn decimal_text(value: nat) -> Seq<char>
    decreases value,
{
    if value < 10 {
        seq![digit_char(value as int)]
    } else {
        decimal_text(value / 10).push(digit_char((value % 10) as int))
    }
}

fn digit(d: u32) -> (c: char)
    requires
        d < 10,
    ensures
        c == digit_char(d as int),
{
    if d == 0 {
        '0'
    } else if d == 1 {
        '1'
    } else if d == 2 {
        '2'
    } else if d == 3 {
        '3'
    } else if d == 4 {
        '4'
    } else if d == 5 {
        '5'
    } else if d == 6 {
        '6'
    } else if d == 7 {
        '7'
    } else if d == 8 {
        '8'
    } else {
        '9'
    }
}

/// Writes `value` in decimal digits.
pub fn decimal_string(value: u32) -> (r: String)
    ensures
        r@ == decimal_text(value as nat),
    decreases value,
{
    if value < 10 {
        let mut r = String::new();
        push_char(&mut r, digit(value));
        assert(r@ =~= seq![digit_char(value as int)]);
        r
    } else {
        let mut r = decimal_string(value / 10);
        push_char(&mut r, digit(value % 10));
        r
    }
}

/// The character with the given number, as `char::from_u32` gives it: there
/// is one exactly where the number is a Unicode scalar value.
#[verifier::external_body]
fn char_from_u32(value: u32) -> (r: Option<char>)
    ensures
        r is Some <==> is_scalar(value),
        r matches Some(c) ==> c as u32 == value,
{
    char::from_u32(value)
}

impl DatasetError {
    /// The message that describes the error.
    pub open spec fn spec_to_string(&self) -> Seq<char> {
        match self {
            DatasetError::InvalidCodepointRepresentation(s) => {
                "invalid Unicode codepoint representation: "@ + s@
            },
            DatasetError::InvalidCodepoint(v) => "invalid Unicode codepoint: "@ + decimal_text(
                *v as nat,
            ),
        }
    }

    /// The message that describes the error.
    pub fn to_string(&self) -> (r: String)
        ensures
            r@ == self.spec_to_string(),
    {
        match self {
            DatasetError::InvalidCodepointRepresentation(s) => {
                let mut r = String::from_str("invalid Unicode codepoint representation: ");
                r.append(s.as_str());
                r
            },
            DatasetError::InvalidCodepoint(v) => {
                let mut r = String::from_str("invalid Unicode codepoint: ");
                r.append(decimal_string(*v).as_str());
                r
            },
        }
    }
}

/// The value of a hexadecimal digit.
pub open spec fn hex_digit(c: char) -> Option<int> {
    if '0' <= c <= '9' {
        Some(c as int - '0' as int)
    } else if 'a' <= c <= 'f' {
        Some(c as int - 'a' as int + 10)
    } else if 'A' <= c <= 'F' {
        Some(c as int - 'A' as int + 10)
    } else {
        None
    }
}

/// The number that hexadecimal digits write, or `None` where one of the
/// characters is no hexadecimal digit.
pub open spec fn hex_number(digits: Seq<char>) -> Option<int>
    decreases digits.len(),
{
    if digits.len() == 0 {
        Some(0)
    } else {
        match (hex_number(digits.drop_last()), hex_digit(digits.last())) {
            (Some(n), Some(d)) => Some(n * 16 + d),
            _ => None,
        }
    }
}

/// The code point that `text` writes: `U+`, then a `+` or none, then at
/// least one hexadecimal digit, the number being one of 32 bits.
pub open spec fn spec_parse_unicode_codepoint(text: Seq<char>) -> Option<u32> {
    if text.len() >= 2 && text[0] == 'U' && text[1] == '+' {
        let rest = text.skip(2);
        let digits = if rest.len() > 0 && rest[0] == '+' {
            rest.skip(1)
        } else {
            rest
        };
        match hex_number(digits) {
            Some(n) => if digits.len() > 0 && n <= u32::MAX {
                Some(n as u32)
            } else {
                None
            },
            None => None,
        }
    } else {
        None
    }
}

/// Digits that are all hexadecimal write a number that is not below the
/// number that any of their prefixes writes.
pub proof fn lemma_hex_number_grows(digits: Seq<char>, k: int)
    requires
        0 <= k <= digits.len(),
    ensures
        hex_number(digits) matches Some(n) ==> hex_number(digits.take(k)) matches Some(m) && 0
            <= m <= n,
        hex_number(digits.take(k)) is None ==> hex_number(digits) is None,
    decreases digits.len() - k,
{
    if k < digits.len() {
        lemma_hex_number_grows(digits, k + 1);
        assert(digits.take(k + 1).drop_last() =~= digits.take(k));
    } else {
        assert(digits.take(k) =~= digits);
        lemma_hex_number_nonnegative(digits);
    }
}

/// What hexadecimal digits write is not negative.
pub proof fn lemma_hex_number_nonnegative(digits: Seq<char>)
    ensures
        hex_number(digits) matches Some(n) ==> n >= 0,
    decreases digits.len(),
{
    if digits.len() > 0 {
        lemma_hex_number_nonnegative(digits.drop_last());
    }
}

fn hex_digit_value(c: char) -> (r: Option<u64>)
    ensures
        match r {
            Some(d) => hex_digit(c) == Some(d as int) && d < 16,
            None => hex_digit(c) is None,
        },
{
    let v: u32 = c as u32;
    if '0' <= c && c <= '9' {
        Some((v - 0x30) as u64)
    } else if 'a' <= c && c <= 'f' {
        Some((v - 0x61 + 10) as u64)
    } else if 'A' <= c && c <= 'F' {
        Some((v - 0x41 + 10) as u64)
    } else {
        None
    }
}

/// Reads the code point that `cp_repr` writes.
pub fn parse_unicode_codepoint(cp_repr: &str) -> (r: Result<u32, DatasetError>)
    ensures
        match spec_parse_unicode_codepoint(cp_repr@) {
            Some(v) => r == Ok::<u32, DatasetError>(v),
            None => r matches Err(e) && e@ == DatasetErrorView::InvalidCodepointRepresentation(
                cp_repr@,
            ),
        },
{
    let chars = chars_of(cp_repr);
    if chars.len() < 2 || chars[0] != 'U' || chars[1] != '+' {
        return Err(DatasetError::InvalidCodepointRepresentation(String::from_str(cp_repr)));
    }
    let start: usize = if chars.len() > 2 && chars[2] == '+' {
        3
    } else {
        2
    };
    let ghost rest = chars@.skip(2);
    let ghost digits = chars@.skip(start as int);
    proof {
        if start == 3 {
            assert(rest[0] == chars@[2]);
            assert(rest.skip(1) =~= digits);
        } else if chars.len() > 2 {
            assert(rest[0] == chars@[2]);
        }
    }
    if start == chars.len() {
        return Err(DatasetError::InvalidCodepointRepresentation(String::from_str(cp_repr)));
    }
    let mut value: u64 = 0;
    let mut i: usize = start;
    proof {
        assert(digits.take(0) =~= Seq::<char>::empty());
    }
    let ghost expected = match hex_number(digits) {
        Some(n) => if n <= u32::MAX {
            Some(n as u32)
        } else {
            None
        },
        None => None,
    };
    assert(spec_parse_unicode_codepoint(cp_repr@) == expected);
    while i < chars.len()
        invariant
            start <= i <= chars.len(),
            digits == chars@.skip(start as int),
            hex_number(digits.take(i - start)) == Some(value as int),
            value <= u32::MAX,
            spec_parse_unicode_codepoint(cp_repr@) == (match hex_number(digits) {
                Some(n) => if n <= u32::MAX {
                    Some(n as u32)
                } else {
                    None
                },
                None => None,
            }),
        decreases chars.len() - i,
    {
        proof {
            assert(digits.take(i + 1 - start).drop_last() =~= digits.take(i - start));
            assert(digits.take(i + 1 - start).last() == chars@[i as int]);
            lemma_hex_number_grows(digits, i + 1 - start);
        }
        match hex_digit_value(chars[i]) {
            Some(d) => {
                value = value * 16 + d;
                if value > 0xffff_ffff {
                    return Err(
                        DatasetError::InvalidCodepointRepresentation(String::from_str(cp_repr)),
                    );
                }
            },
            None => {
                return Err(DatasetError::InvalidCodepointRepresentation(String::from_str(cp_repr)));
            },
        }
        i += 1;
    }
    proof {
        assert(digits.take(i - start) =~= digits);
    }
    Ok(value as u32)
}

/// The text of the character with the given number.
pub open spec fn spec_codepoint_to_string(codepoint: u32) -> Option<Seq<char>> {
    if is_scalar(codepoint) {
        Some(seq![codepoint as char])
    } else {
        None
    }
}

/// The text of the characters with the given numbers, or the first of the
/// numbers that is no Unicode scalar value.
pub open spec fn spec_codepoints_to_string(codepoints: Seq<u32>) -> Result<Seq<char>, u32>
    decreases codepoints.len(),
{
    if codepoints.len() == 0 {
        Ok(Seq::<char>::empty())
    } else {
        match spec_codepoints_to_string(codepoints.drop_last()) {
            Ok(s) => if is_scalar(codepoints.last()) {
                Ok(s.push(codepoints.last() as char))
            } else {
                Err(codepoints.last())
            },
            Err(e) => Err(e),
        }
    }
}

/// The text of the character with the given number.
pub fn codepoint_to_string(codepoint: u32) -> (r: Result<String, DatasetError>)
    ensures
        match spec_codepoint_to_string(codepoint) {
            Some(s) => r matches Ok(t) && t@ == s,
            None => r matches Err(e) && e@ == DatasetErrorView::InvalidCodepoint(codepoint),
        },
{
    match char_from_u32(codepoint) {
        Some(c) => {
            proof {
                vstd::utf8::char_u32_cast(c, codepoint);
            }
            let mut s = String::new();
            push_char(&mut s, c);
            assert(s@ =~= seq![c]);
            Ok(s)
        },
        None => Err(DatasetError::InvalidCodepoint(codepoint)),
    }
}

/// The text of the characters with the given numbers.
pub fn codepoints_to_string(codepoints: &Vec<u32>) -> (r: Result<String, DatasetError>)
    ensures
        match spec_codepoints_to_string(codepoints@) {
            Ok(s) => r matches Ok(t) && t@ == s,
            Err(v) => r matches Err(e) && e@ == DatasetErrorView::InvalidCodepoint(v),
        },
{
    let mut s = String::new();
    let mut i: usize = 0;
    proof {
        assert(codepoints@.take(0) =~= Seq::<u32>::empty());
    }
    while i < codepoints.len()
        invariant
            i <= codepoints.len(),
            spec_codepoints_to_string(codepoints@.take(i as int)) == Ok::<Seq<char>, u32>(s@),
        decreases codepoints.len() - i,
    {
        proof {
            assert(codepoints@.take(i + 1).drop_last() =~= codepoints@.take(i as int));
            assert(codepoints@.take(i + 1).last() == codepoints@[i as int]);
        }
        match char_from_u32(codepoints[i]) {
            Some(c) => {
                proof {
                    vstd::utf8::char_u32_cast(c, codepoints@[i as int]);
                }
                push_char(&mut s, c);
            },
            None => {
                proof {
                    lemma_codepoints_fail(codepoints@, i + 1);
                }
                return Err(DatasetError::InvalidCodepoint(codepoints[i]));
            },
        }
        i += 1;
    }
    proof {
        assert(codepoints@.take(i as int) =~= codepoints@);
    }
    Ok(s)
}

/// Once a prefix of the numbers has failed, all of them fail in the same
/// way.
pub proof fn lemma_codepoints_fail(codepoints: Seq<u32>, k: int)
    requires
        0 <= k <= codepoints.len(),
        spec_codepoints_to_string(codepoints.take(k)) is Err,
    ensures
        spec_codepoints_to_string(codepoints) == spec_codepoints_to_string(codepoints.take(k)),
    decreases codepoints.len() - k,
{
    if k < codepoints.len() {
        assert(codepoints.take(k + 1).drop_last() =~= codepoints.take(k));
        lemma_codepoints_fail(codepoints, k + 1);
    } else {
        assert(codepoints.take(k) =~= codepoints);
    }
}

/// The text that the code point written by `repr` stands for.
pub open spec fn spec_text_of(repr: Seq<char>) -> Result<Seq<char>, DatasetErrorView> {
    match spec_parse_unicode_codepoint(repr) {
        Some(v) => match spec_codepoint_to_string(v) {
            Some(s) => Ok(s),
            None => Err(DatasetErrorView::InvalidCodepoint(v)),
        },
        None => Err(DatasetErrorView::InvalidCodepointRepresentation(repr)),
    }
}

/// Whether `r` is the value that `expected` describes.
pub open spec fn is_text(r: Result<String, DatasetError>, expected: Result<
    Seq<char>,
    DatasetErrorView,
>) -> bool {
    match expected {
        Ok(s) => r matches Ok(t) && t@ == s,
        Err(e) => r matches Err(f) && f@ == e,
    }
}

/// The text that the code point written by `repr` stands for.
pub fn text_of(repr: &str) -> (r: Result<String, DatasetError>)
    ensures
        is_text(r, spec_text_of(repr@)),
{
    match parse_unicode_codepoint(repr) {
        Ok(v) => codepoint_to_string(v),
        Err(e) => Err(e),
    }
}

/// The code points that `reprs` write, or the error of the first that
/// writes none.
pub open spec fn spec_codepoints_of(reprs: Seq<Seq<char>>) -> Result<Seq<u32>, DatasetErrorView>
    decreases reprs.len(),
{
    if reprs.len() == 0 {
        Ok(Seq::<u32>::empty())
    } else {
        match spec_codepoints_of(reprs.drop_last()) {
            Ok(s) => match spec_parse_unicode_codepoint(reprs.last()) {
                Some(v) => Ok(s.push(v)),
                None => Err(DatasetErrorView::InvalidCodepointRepresentation(reprs.last())),
            },
            Err(e) => Err(e),
        }
    }
}

/// The text that the code points written by `reprs` spell: all of them
/// are read first, and then turned into characters.
pub open spec fn spec_texts_of(reprs: Seq<Seq<char>>) -> Result<Seq<char>, DatasetErrorView> {
    match spec_codepoints_of(reprs) {
        Ok(codepoints) => match spec_codepoints_to_string(codepoints) {
            Ok(s) => Ok(s),
            Err(v) => Err(DatasetErrorView::InvalidCodepoint(v)),
        },
        Err(e) => Err(e),
    }
}

/// Once a prefix of the texts has failed, all of them fail in the same
/// way.
pub proof fn lemma_codepoints_of_fail(reprs: Seq<Seq<char>>, k: int)
    requires
        0 <= k <= reprs.len(),
        spec_codepoints_of(reprs.take(k)) is Err,
    ensures
        spec_codepoints_of(reprs) == spec_codepoints_of(reprs.take(k)),
    decreases reprs.len() - k,
{
    if k < reprs.len() {
        assert(reprs.take(k + 1).drop_last() =~= reprs.take(k));
        lemma_codepoints_of_fail(reprs, k + 1);
    } else {
        assert(reprs.take(k) =~= reprs);
    }
}

/// The views of a sequence of strings.
pub open spec fn views(texts: Seq<String>) -> Seq<Seq<char>> {
    texts.map_values(|s: String| s@)
}

/// The text that the code points written by `reprs` spell.
pub fn texts_of(reprs: &Vec<String>) -> (r: Result<String, DatasetError>)
    ensures
        is_text(r, spec_texts_of(views(reprs@))),
{
    let ghost all = views(reprs@);
    let mut codepoints: Vec<u32> = Vec::new();
    let mut i: usize = 0;
    proof {
        assert(all.take(0) =~= Seq::<Seq<char>>::empty());
    }
    while i < reprs.len()
        invariant
            i <= reprs.len(),
            all == views(reprs@),
            spec_codepoints_of(all.take(i as int)) == Ok::<Seq<u32>, DatasetErrorView>(
                codepoints@,
            ),
        decreases reprs.len() - i,
    {
        proof {
            assert(all.take(i + 1).drop_last() =~= all.take(i as int));
            assert(all.take(i + 1).last() == reprs@[i as int]@);
        }
        match parse_unicode_codepoint(reprs[i].as_str()) {
            Ok(v) => {
                codepoints.push(v);
            },
            Err(e) => {
                proof {
                    lemma_codepoints_of_fail(all, i + 1);
                }
                return Err(e);
            },
        }
        i += 1;
    }
    proof {
        assert(all.take(i as int) =~= all);
    }
    codepoints_to_string(&codepoints)
}

/// The fields of the records of variation sequences, one after the
/// other, each followed by a NUL: for each record its ideographic sequence,
/// its standardized sequence, and its base in either edition, a field that
/// is missing being empty. NUL separates the fields, and none follows the
/// last.
pub open spec fn spec_compressed(records: Seq<IvsSvsBaseRecord>) -> Seq<char>
    decreases records.len(),
{
    if records.len() == 0 {
        Seq::<char>::empty()
    } else {
        let r = records.last();
        let fields = r.ivs@ + seq!['\0'] + field_text(r.svs) + seq!['\0'] + field_text(r.base90)
            + seq!['\0'] + field_text(r.base2004);
        if records.len() == 1 {
            fields
        } else {
            spec_compressed(records.drop_last()) + seq!['\0'] + fields
        }
    }
}

/// The text of a field: empty where the field is missing.
pub open spec fn field_text(field: Option<String>) -> Seq<char> {
    match field {
        Some(s) => s@,
        None => Seq::<char>::empty(),
    }
}

fn append_field(out: &mut String, field: &Option<String>)
    ensures
        final(out)@ == old(out)@ + field_text(*field),
{
    match field {
        Some(s) => {
            out.append(s.as_str());
        },
        None => {
            assert(out@ + Seq::<char>::empty() =~= out@);
        },
    }
}

/// Writes the records of variation sequences as one text, four fields for
/// each record with a NUL between each two fields.
pub fn build_compressed_ivs_svs_base_records(data: &Vec<IvsSvsBaseRecord>) -> (r: String)
    ensures
        r@ == spec_compressed(data@),
{
    let mut out = String::new();
    let mut i: usize = 0;
    proof {
        assert(data@.take(0) =~= Seq::<IvsSvsBaseRecord>::empty());
    }
    while i < data.len()
        invariant
            i <= data.len(),
            out@ == spec_compressed(data@.take(i as int)),
        decreases data.len() - i,
    {
        let ghost before = out@;
        proof {
            assert(data@.take(i + 1).drop_last() =~= data@.take(i as int));
            assert(data@.take(i + 1).last() == data@[i as int]);
        }
        if i > 0 {
            push_char(&mut out, '\0');
        }
        let ghost start = out@;
        let record = &data[i];
        out.append(record.ivs.as_str());
        push_char(&mut out, '\0');
        append_field(&mut out, &record.svs);
        push_char(&mut out, '\0');
        append_field(&mut out, &record.base90);
        push_char(&mut out, '\0');
        append_field(&mut out, &record.base2004);
        proof {
            let r = data@[i as int];
            let fields = r.ivs@ + seq!['\0'] + field_text(r.svs) + seq!['\0'] + field_text(
                r.base90,
            ) + seq!['\0'] + field_text(r.base2004);
            assert(out@ =~= start + fields);
            if i > 0 {
                assert(start =~= before + seq!['\0']);
            } else {
                assert(start =~= Seq::<char>::empty());
                assert(start + fields =~= fields);
            }
        }
        i += 1;
    }
    proof {
        assert(data@.take(i as int) =~= data@);
    }
    out
}

/// The results of the entries gathered: all of them where none has
/// failed, else the error of the first that has.
pub open spec fn gathered<T>(results: Seq<Result<T, DatasetErrorView>>) -> Result<
    Seq<T>,
    DatasetErrorView,
>
    decreases results.len(),
{
    if results.len() == 0 {
        Ok(Seq::<T>::empty())
    } else {
        match gathered(results.drop_last()) {
            Ok(s) => match results.last() {
                Ok(t) => Ok(s.push(t)),
                Err(e) => Err(e),
            },
            Err(e) => Err(e),
        }
    }
}

/// Once a prefix of the entries has failed, all of them fail in the same
/// way.
pub proof fn lemma_gathered_fail<T>(results: Seq<Result<T, DatasetErrorView>>, k: int)
    requires
        0 <= k <= results.len(),
        gathered(results.take(k)) is Err,
    ensures
        gathered(results) is Err,
        gathered(results)->Err_0 == gathered(results.take(k))->Err_0,
    decreases results.len() - k,
{
    if k < results.len() {
        assert(results.take(k + 1).drop_last() =~= results.take(k));
        lemma_gathered_fail(results, k + 1);
    } else {
        assert(results.take(k) =~= results);
    }
}

/// The text that optional code points spell.
pub open spec fn spec_optional_texts(reprs: Option<Vec<String>>) -> Result<
    Option<Seq<char>>,
    DatasetErrorView,
> {
    match reprs {
        Some(v) => match spec_texts_of(views(v@)) {
            Ok(s) => Ok(Some(s)),
            Err(e) => Err(e),
        },
        None => Ok(None),
    }
}

/// The text that an optional code point stands for.
pub open spec fn spec_optional_text(repr: Option<String>) -> Result<
    Option<Seq<char>>,
    DatasetErrorView,
> {
    match repr {
        Some(v) => match spec_text_of(v@) {
            Ok(s) => Ok(Some(s)),
            Err(e) => Err(e),
        },
        None => Ok(None),
    }
}

/// Whether `r` is the value that `expected` describes.
pub open spec fn is_optional_text(r: Result<Option<String>, DatasetError>, expected: Result<
    Option<Seq<char>>,
    DatasetErrorView,
>) -> bool {
    match expected {
        Ok(s) => r matches Ok(t) && option_view(t) == s,
        Err(e) => r matches Err(f) && f@ == e,
    }
}

fn optional_texts(reprs: &Option<Vec<String>>) -> (r: Result<Option<String>, DatasetError>)
    ensures
        is_optional_text(r, spec_optional_texts(*reprs)),
{
    match reprs {
        Some(v) => match texts_of(v) {
            Ok(s) => Ok(Some(s)),
            Err(e) => Err(e),
        },
        None => Ok(None),
    }
}

fn optional_text(repr: &Option<String>) -> (r: Result<Option<String>, DatasetError>)
    ensures
        is_optional_text(r, spec_optional_text(*repr)),
{
    match repr {
        Some(v) => match text_of(v.as_str()) {
            Ok(s) => Ok(Some(s)),
            Err(e) => Err(e),
        },
        None => Ok(None),
    }
}

/// The mathematical value of a pair of texts.
pub open spec fn pair_view(pair: (String, String)) -> (Seq<char>, Seq<char>) {
    (pair.0@, pair.1@)
}

/// The values of a sequence of pairs of texts.
pub open spec fn pair_views(pairs: Seq<(String, String)>) -> Seq<(Seq<char>, Seq<char>)> {
    pairs.map_values(|p: (String, String)| pair_view(p))
}

/// The pair of texts that an entry of a table of single characters stands
/// for: the character it maps, and the character it maps to, or the empty
/// text where it names none.
pub open spec fn spec_simple_record(entry: (String, Option<String>)) -> Result<
    (Seq<char>, Seq<char>),
    DatasetErrorView,
> {
    match spec_text_of(entry.0@) {
        Ok(from) => match entry.1 {
            Some(v) => match spec_text_of(v@) {
                Ok(to) => Ok((from, to)),
                Err(e) => Err(e),
            },
            None => Ok((from, Seq::<char>::empty())),
        },
        Err(e) => Err(e),
    }
}

/// The pairs of texts that the entries of a table of single characters
/// stand for.
pub fn parse_simple_transliteration_records(entries: &Vec<(String, Option<String>)>) -> (r: Result<
    Vec<(String, String)>,
    DatasetError,
>)
    ensures
        match gathered(entries@.map_values(|e: (String, Option<String>)| spec_simple_record(e))) {
            Ok(pairs) => r matches Ok(v) && pair_views(v@) == pairs,
            Err(e) => r matches Err(f) && f@ == e,
        },
{
    let ghost results = entries@.map_values(|e: (String, Option<String>)| spec_simple_record(e));
    let mut out: Vec<(String, String)> = Vec::new();
    let mut i: usize = 0;
    proof {
        assert(results.take(0) =~= Seq::<Result<(Seq<char>, Seq<char>), DatasetErrorView>>::empty());
        assert(pair_views(out@) =~= Seq::<(Seq<char>, Seq<char>)>::empty());
    }
    while i < entries.len()
        invariant
            i <= entries.len(),
            results == entries@.map_values(|e: (String, Option<String>)| spec_simple_record(e)),
            gathered(results.take(i as int)) == Ok::<
                Seq<(Seq<char>, Seq<char>)>,
                DatasetErrorView,
            >(pair_views(out@)),
        decreases entries.len() - i,
    {
        let ghost before = pair_views(out@);
        proof {
            assert(results.take(i + 1).drop_last() =~= results.take(i as int));
            assert(results.take(i + 1).last() == spec_simple_record(entries@[i as int]));
        }
        let entry = &entries[i];
        let from = match text_of(entry.0.as_str()) {
            Ok(s) => s,
            Err(e) => {
                proof {
                    lemma_gathered_fail(results, i + 1);
                }
                return Err(e);
            },
        };
        let to = match &entry.1 {
            Some(v) => match text_of(v.as_str()) {
                Ok(s) => s,
                Err(e) => {
                    proof {
                        lemma_gathered_fail(results, i + 1);
                    }
                    return Err(e);
                },
            },
            None => String::new(),
        };
        let ghost pair = (from@, to@);
        out.push((from, to));
        proof {
            assert(pair_views(out@) =~= before.push(pair));
        }
        i += 1;
    }
    proof {
        assert(results.take(i as int) =~= results);
    }
    Ok(out)
}

/// The pair of texts that an entry of the table of combined characters
/// stands for: the character it maps, and the text it maps to.
pub open spec fn spec_combined_record(entry: (String, String)) -> Result<
    (Seq<char>, Seq<char>),
    DatasetErrorView,
> {
    match spec_text_of(entry.0@) {
        Ok(from) => Ok((from, entry.1@)),
        Err(e) => Err(e),
    }
}

/// The pairs of texts that the entries of the table of combined
/// characters stand for.
pub fn parse_combined_transliteration_records(entries: &Vec<(String, String)>) -> (r: Result<
    Vec<(String, String)>,
    DatasetError,
>)
    ensures
        match gathered(entries@.map_values(|e: (String, String)| spec_combined_record(e))) {
            Ok(pairs) => r matches Ok(v) && pair_views(v@) == pairs,
            Err(e) => r matches Err(f) && f@ == e,
        },
{
    let ghost results = entries@.map_values(|e: (String, String)| spec_combined_record(e));
    let mut out: Vec<(String, String)> = Vec::new();
    let mut i: usize = 0;
    proof {
        assert(results.take(0) =~= Seq::<Result<(Seq<char>, Seq<char>), DatasetErrorView>>::empty());
        assert(pair_views(out@) =~= Seq::<(Seq<char>, Seq<char>)>::empty());
    }
    while i < entries.len()
        invariant
            i <= entries.len(),
            results == entries@.map_values(|e: (String, String)| spec_combined_record(e)),
            gathered(results.take(i as int)) == Ok::<
                Seq<(Seq<char>, Seq<char>)>,
                DatasetErrorView,
            >(pair_views(out@)),
        decreases entries.len() - i,
    {
        let ghost before = pair_views(out@);
        proof {
            assert(results.take(i + 1).drop_last() =~= results.take(i as int));
            assert(results.take(i + 1).last() == spec_combined_record(entries@[i as int]));
        }
        let entry = &entries[i];
        let from = match text_of(entry.0.as_str()) {
            Ok(s) => s,
            Err(e) => {
                proof {
                    lemma_gathered_fail(results, i + 1);
                }
                return Err(e);
            },
        };
        let to = entry.1.clone();
        let ghost pair = (from@, to@);
        out.push((from, to));
        proof {
            assert(pair_views(out@) =~= before.push(pair));
        }
        i += 1;
    }
    proof {
        assert(results.take(i as int) =~= results);
    }
    Ok(out)
}

/// The pair of texts that an entry of the table of old and new kanji
/// stands for: the sequence of the old form and that of the new form.
pub open spec fn spec_kanji_old_new_record(entry: (Vec<String>, Vec<String>)) -> Result<
    (Seq<char>, Seq<char>),
    DatasetErrorView,
> {
    match spec_texts_of(views(entry.0@)) {
        Ok(old) => match spec_texts_of(views(entry.1@)) {
            Ok(new) => Ok((old, new)),
            Err(e) => Err(e),
        },
        Err(e) => Err(e),
    }
}

/// The pairs of texts that the entries of the table of old and new kanji
/// stand for.
pub fn parse_kanji_old_new_transliteration_records(
    entries: &Vec<(Vec<String>, Vec<String>)>,
) -> (r: Result<Vec<(String, String)>, DatasetError>)
    ensures
        match gathered(
            entries@.map_values(|e: (Vec<String>, Vec<String>)| spec_kanji_old_new_record(e)),
        ) {
            Ok(pairs) => r matches Ok(v) && pair_views(v@) == pairs,
            Err(e) => r matches Err(f) && f@ == e,
        },
{
    let ghost results = entries@.map_values(
        |e: (Vec<String>, Vec<String>)| spec_kanji_old_new_record(e),
    );
    let mut out: Vec<(String, String)> = Vec::new();
    let mut i: usize = 0;
    proof {
        assert(results.take(0) =~= Seq::<Result<(Seq<char>, Seq<char>), DatasetErrorView>>::empty());
        assert(pair_views(out@) =~= Seq::<(Seq<char>, Seq<char>)>::empty());
    }
    while i < entries.len()
        invariant
            i <= entries.len(),
            results == entries@.map_values(
                |e: (Vec<String>, Vec<String>)| spec_kanji_old_new_record(e),
            ),
            gathered(results.take(i as int)) == Ok::<
                Seq<(Seq<char>, Seq<char>)>,
                DatasetErrorView,
            >(pair_views(out@)),
        decreases entries.len() - i,
    {
        let ghost before = pair_views(out@);
        proof {
            assert(results.take(i + 1).drop_last() =~= results.take(i as int));
            assert(results.take(i + 1).last() == spec_kanji_old_new_record(entries@[i as int]));
        }
        let entry = &entries[i];
        let old_text = match texts_of(&entry.0) {
            Ok(s) => s,
            Err(e) => {
                proof {
                    lemma_gathered_fail(results, i + 1);
                }
                return Err(e);
            },
        };
        let new_text = match texts_of(&entry.1) {
            Ok(s) => s,
            Err(e) => {
                proof {
                    lemma_gathered_fail(results, i + 1);
                }
                return Err(e);
            },
        };
        let ghost pair = (old_text@, new_text@);
        out.push((old_text, new_text));
        proof {
            assert(pair_views(out@) =~= before.push(pair));
        }
        i += 1;
    }
    proof {
        assert(results.take(i as int) =~= results);
    }
    Ok(out)
}

/// A record of variation sequences as the data set writes it, in code
/// points.
#[derive(Debug, Clone)]
pub struct IvsSvsFileRecord {
    pub ivs: Vec<String>,
    pub svs: Option<Vec<String>>,
    pub base90: Option<String>,
    pub base2004: Option<String>,
}

/// The record that a record of the data set stands for.
pub open spec fn spec_ivs_svs_record(record: IvsSvsFileRecord) -> Result<
    RecordView,
    DatasetErrorView,
> {
    match spec_texts_of(views(record.ivs@)) {
        Ok(ivs) => match spec_optional_texts(record.svs) {
            Ok(svs) => match spec_optional_text(record.base90) {
                Ok(base90) => match spec_optional_text(record.base2004) {
                    Ok(base2004) => Ok(
                        RecordView {
                            ivs,
                            svs,
                            base90,
                            base2004,
                        },
                    ),
                    Err(e) => Err(e),
                },
                Err(e) => Err(e),
            },
            Err(e) => Err(e),
        },
        Err(e) => Err(e),
    }
}

fn ivs_svs_record(record: &IvsSvsFileRecord) -> (r: Result<IvsSvsBaseRecord, DatasetError>)
    ensures
        match spec_ivs_svs_record(*record) {
            Ok(v) => r matches Ok(t) && t@ == v,
            Err(e) => r matches Err(f) && f@ == e,
        },
{
    let ivs = match texts_of(&record.ivs) {
        Ok(s) => s,
        Err(e) => {
            return Err(e);
        },
    };
    let svs = match optional_texts(&record.svs) {
        Ok(s) => s,
        Err(e) => {
            return Err(e);
        },
    };
    let base90 = match optional_text(&record.base90) {
        Ok(s) => s,
        Err(e) => {
            return Err(e);
        },
    };
    let base2004 = match optional_text(&record.base2004) {
        Ok(s) => s,
        Err(e) => {
            return Err(e);
        },
    };
    Ok(IvsSvsBaseRecord { ivs, svs, base90, base2004 })
}

/// The records of variation sequences that the records of the data set
/// stand for.
pub fn parse_ivs_svs_base_transliteration_records(records: &Vec<IvsSvsFileRecord>) -> (r: Result<
    Vec<IvsSvsBaseRecord>,
    DatasetError,
>)
    ensures
        match gathered(records@.map_values(|e: IvsSvsFileRecord| spec_ivs_svs_record(e))) {
            Ok(v) => r matches Ok(t) && record_views(t@)
                == v,
            Err(e) => r matches Err(f) && f@ == e,
        },
{
    let ghost results = records@.map_values(|e: IvsSvsFileRecord| spec_ivs_svs_record(e));
    let mut out: Vec<IvsSvsBaseRecord> = Vec::new();
    let mut i: usize = 0;
    proof {
        assert(results.take(0) =~= Seq::<
            Result<RecordView, DatasetErrorView>,
        >::empty());
        assert(record_views(out@) =~= Seq::<
            RecordView,
        >::empty());
    }
    while i < records.len()
        invariant
            i <= records.len(),
            results == records@.map_values(|e: IvsSvsFileRecord| spec_ivs_svs_record(e)),
            gathered(results.take(i as int)) == Ok::<
                Seq<RecordView>,
                DatasetErrorView,
            >(record_views(out@)),
        decreases records.len() - i,
    {
        let ghost before = record_views(out@);
        proof {
            assert(results.take(i + 1).drop_last() =~= results.take(i as int));
            assert(results.take(i + 1).last() == spec_ivs_svs_record(records@[i as int]));
        }
        match ivs_svs_record(&records[i]) {
            Ok(record) => {
                let ghost view = record@;
                out.push(record);
                proof {
                    assert(record_views(out@)
                        =~= before.push(view));
                }
            },
            Err(e) => {
                proof {
                    lemma_gathered_fail(results, i + 1);
                }
                return Err(e);
            },
        }
        i += 1;
    }
    proof {
        assert(results.take(i as int) =~= results);
    }
    Ok(out)
}

/// What the standards have a hyphen turn into, as the data set writes it,
/// in code points.
#[derive(Debug, Clone)]
pub struct HyphensFileRecord {
    pub code: String,
    pub ascii: Option<Vec<String>>,
    pub jisx0201: Option<Vec<String>>,
    pub jisx0208_1978: Option<Vec<String>>,
    pub jisx0208_1978_windows: Option<Vec<String>>,
    pub jisx0208_verbatim: Option<String>,
}

/// The mathematical value of an entry of the table of hyphens.
pub struct HyphensEntryView {
    pub code: Seq<char>,
    pub ascii: Option<Seq<char>>,
    pub jisx0201: Option<Seq<char>>,
    pub jisx0208_90: Option<Seq<char>>,
    pub jisx0208_90_windows: Option<Seq<char>>,
    pub jisx0208_verbatim: Option<Seq<char>>,
}

/// The value of an entry of the table of hyphens.
pub open spec fn hyphens_entry_view(entry: (String, HyphensRecord)) -> HyphensEntryView {
    HyphensEntryView {
        code: entry.0@,
        ascii: option_view(entry.1.ascii),
        jisx0201: option_view(entry.1.jisx0201),
        jisx0208_90: option_view(entry.1.jisx0208_90),
        jisx0208_90_windows: option_view(entry.1.jisx0208_90_windows),
        jisx0208_verbatim: option_view(entry.1.jisx0208_verbatim),
    }
}

/// The values of the entries of the table of hyphens.
pub open spec fn hyphens_entry_views(entries: Seq<(String, HyphensRecord)>) -> Seq<HyphensEntryView> {
    entries.map_values(|e: (String, HyphensRecord)| hyphens_entry_view(e))
}

/// The entry that a record of the data set stands for.
pub open spec fn spec_hyphens_record(record: HyphensFileRecord) -> Result<
    HyphensEntryView,
    DatasetErrorView,
> {
    match spec_text_of(record.code@) {
        Ok(code) => match spec_optional_texts(record.ascii) {
            Ok(ascii) => match spec_optional_texts(record.jisx0201) {
                Ok(jisx0201) => match spec_optional_texts(record.jisx0208_1978) {
                    Ok(jisx0208_90) => match spec_optional_texts(record.jisx0208_1978_windows) {
                        Ok(jisx0208_90_windows) => match spec_optional_text(
                            record.jisx0208_verbatim,
                        ) {
                            Ok(jisx0208_verbatim) => Ok(
                                HyphensEntryView {
                                    code,
                                    ascii,
                                    jisx0201,
                                    jisx0208_90,
                                    jisx0208_90_windows,
                                    jisx0208_verbatim,
                                },
                            ),
                            Err(e) => Err(e),
                        },
                        Err(e) => Err(e),
                    },
                    Err(e) => Err(e),
                },
                Err(e) => Err(e),
            },
            Err(e) => Err(e),
        },
        Err(e) => Err(e),
    }
}

fn hyphens_record(record: &HyphensFileRecord) -> (r: Result<(String, HyphensRecord), DatasetError>)
    ensures
        match spec_hyphens_record(*record) {
            Ok(v) => r matches Ok(t) && hyphens_entry_view(t) == v,
            Err(e) => r matches Err(f) && f@ == e,
        },
{
    let code = match text_of(record.code.as_str()) {
        Ok(s) => s,
        Err(e) => {
            return Err(e);
        },
    };
    let ascii = match optional_texts(&record.ascii) {
        Ok(s) => s,
        Err(e) => {
            return Err(e);
        },
    };
    let jisx0201 = match optional_texts(&record.jisx0201) {
        Ok(s) => s,
        Err(e) => {
            return Err(e);
        },
    };
    let jisx0208_90 = match optional_texts(&record.jisx0208_1978) {
        Ok(s) => s,
        Err(e) => {
            return Err(e);
        },
    };
    let jisx0208_90_windows = match optional_texts(&record.jisx0208_1978_windows) {
        Ok(s) => s,
        Err(e) => {
            return Err(e);
        },
    };
    let jisx0208_verbatim = match optional_text(&record.jisx0208_verbatim) {
        Ok(s) => s,
        Err(e) => {
            return Err(e);
        },
    };
    Ok(
        (
            code,
            HyphensRecord { ascii, jisx0201, jisx0208_90, jisx0208_90_windows, jisx0208_verbatim },
        ),
    )
}

/// The entries of the table of hyphens that the records of the data set
/// stand for.
pub fn parse_hyphen_transliteration_records(records: &Vec<HyphensFileRecord>) -> (r: Result<
    Vec<(String, HyphensRecord)>,
    DatasetError,
>)
    ensures
        match gathered(records@.map_values(|e: HyphensFileRecord| spec_hyphens_record(e))) {
            Ok(v) => r matches Ok(t) && hyphens_entry_views(t@) == v,
            Err(e) => r matches Err(f) && f@ == e,
        },
{
    let ghost results = records@.map_values(|e: HyphensFileRecord| spec_hyphens_record(e));
    let mut out: Vec<(String, HyphensRecord)> = Vec::new();
    let mut i: usize = 0;
    proof {
        assert(results.take(0) =~= Seq::<Result<HyphensEntryView, DatasetErrorView>>::empty());
        assert(hyphens_entry_views(out@) =~= Seq::<HyphensEntryView>::empty());
    }
    while i < records.len()
        invariant
            i <= records.len(),
            results == records@.map_values(|e: HyphensFileRecord| spec_hyphens_record(e)),
            gathered(results.take(i as int)) == Ok::<Seq<HyphensEntryView>, DatasetErrorView>(
                hyphens_entry_views(out@),
            ),
        decreases records.len() - i,
    {
        let ghost before = hyphens_entry_views(out@);
        proof {
            assert(results.take(i + 1).drop_last() =~= results.take(i as int));
            assert(results.take(i + 1).last() == spec_hyphens_record(records@[i as int]));
        }
        match hyphens_record(&records[i]) {
            Ok(entry) => {
                let ghost view = hyphens_entry_view(entry);
                out.push(entry);
                proof {
                    assert(hyphens_entry_views(out@) =~= before.push(view));
                }
            },
            Err(e) => {
                proof {
                    lemma_gathered_fail(results, i + 1);
                }
                return Err(e);
            },
        }
        i += 1;
    }
    proof {
        assert(results.take(i as int) =~= results);
    }
    Ok(out)
}

} // verus!
