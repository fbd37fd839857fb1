//! Normalization and validation of DIGIPIN codes.

use vstd::prelude::*;

use vstd::string::{StrSliceExecFns, StringExecFns};
use vstd::utf8::{encode_utf8, is_ascii_chars, is_ascii_chars_encode_utf8};

use crate::grid::{find_grid_position, grid_position_of, is_grid_char};
use crate::text::{ascii_upper, char_is_whitespace, char_to_ascii_uppercase, is_white_space, push_char};

verus! {

/// Errors returned by DIGIPIN operations.
#[derive(Debug, Clone, PartialEq, Eq)]
pub enum DigiPinError {
    LatitudeOutOfRange,
    LongitudeOutOfRange,
    InvalidLength,
    InvalidCharacter { character: char },
}

/// A character that survives compaction: neither a hyphen nor white space.
pub open spec fn is_kept(c: char) -> bool {
    c != '-' && !is_white_space(c)
}

/// The code with hyphens and white space removed and ASCII letters upper-cased.
pub open spec fn compact_chars(s: Seq<char>) -> Seq<char> {
    s.filter(|c: char| is_kept(c)).map_values(|c: char| ascii_upper(c))
}

proof fn lemma_compact_step(s: Seq<char>, i: int)
    requires
        0 <= i < s.len(),
    ensures
        compact_chars(s.take(i + 1)) == if is_kept(s[i]) {
            compact_chars(s.take(i)).push(ascii_upper(s[i]))
        } else {
            compact_chars(s.take(i))
        },
{
    reveal_with_fuel(Seq::filter, 1);
    let f = |c: char| is_kept(c);
    assert(s.take(i + 1).drop_last() =~= s.take(i));
    let a = s.take(i).filter(f);
    if is_kept(s[i]) {
        assert(a.push(s[i]).map_values(|c: char| ascii_upper(c)) =~= a.map_values(
            |c: char| ascii_upper(c),
        ).push(ascii_upper(s[i])));
    }
}

/// `c` survives compaction unchanged: it is kept and upper-casing leaves it as it is.
pub open spec fn is_compact_char(c: char) -> bool {
    is_kept(c) && ascii_upper(c) == c
}

proof fn lemma_filter_all_kept(k: Seq<char>)
    requires
        forall|i: int| 0 <= i < k.len() ==> is_kept(#[trigger] k[i]),
    ensures
        k.filter(|c: char| is_kept(c)) == k,
    decreases k.len(),
{
    reveal_with_fuel(Seq::filter, 1);
    if k.len() > 0 {
        lemma_filter_all_kept(k.drop_last());
        assert(k.drop_last().push(k.last()) =~= k);
    }
}

/// Compaction leaves a sequence of compact characters as it is.
pub proof fn lemma_compact_fixed(k: Seq<char>)
    requires
        forall|i: int| 0 <= i < k.len() ==> is_compact_char(#[trigger] k[i]),
    ensures
        compact_chars(k) == k,
{
    assert forall|i: int| 0 <= i < k.len() implies is_kept(#[trigger] k[i]) by {
        assert(is_compact_char(k[i]));
    }
    lemma_filter_all_kept(k);
    assert(k.map_values(|c: char| ascii_upper(c)) =~= k) by {
        assert forall|i: int| 0 <= i < k.len() implies #[trigger] ascii_upper(k[i]) == k[i] by {
            assert(is_compact_char(k[i]));
        }
    }
}

/// Compaction distributes over concatenation.
pub proof fn lemma_compact_concat(a: Seq<char>, b: Seq<char>)
    ensures
        compact_chars(a + b) == compact_chars(a) + compact_chars(b),
{
    let f = |c: char| is_kept(c);
    Seq::filter_distributes_over_add(a, b, f);
    let g = |c: char| ascii_upper(c);
    assert((a.filter(f) + b.filter(f)).map_values(g) =~= a.filter(f).map_values(g) + b.filter(
        f,
    ).map_values(g));
}

/// Every character that compaction produces is a compact character.
pub proof fn lemma_compact_chars_are_compact(s: Seq<char>)
    ensures
        forall|i: int|
            0 <= i < compact_chars(s).len() ==> is_compact_char(#[trigger] compact_chars(s)[i]),
{
    let f = |c: char| is_kept(c);
    assert forall|i: int| 0 <= i < compact_chars(s).len() implies is_compact_char(
        #[trigger] compact_chars(s)[i],
    ) by {
        s.lemma_filter_pred(f, i);
        let x = s.filter(f)[i];
        assert(is_kept(x));
        if 'a' <= x && x <= 'z' {
            assert(ascii_upper(x) as u32 == (x as u32) - 32);
        }
    }
}

/// Drops hyphens and white space from `digipin` and upper-cases ASCII letters.
pub fn compact(digipin: &str) -> (res: String)
    ensures
        res@ == compact_chars(digipin@),
{
    broadcast use vstd::string::axiom_spec_iter;

    let mut res = String::new();
    for ch in it: digipin.chars()
        invariant
            it.seq() == digipin@,
            res@ == compact_chars(digipin@.take(it.index() as int)),
    {
        proof {
            lemma_compact_step(digipin@, it.index() as int);
        }
        if ch != '-' && !char_is_whitespace(ch) {
            push_char(&mut res, char_to_ascii_uppercase(ch));
        }
    }
    assert(digipin@.take(digipin@.len() as int) =~= digipin@);
    res
}

/// The text that describes an error.
pub open spec fn error_message(e: DigiPinError) -> Seq<char> {
    match e {
        DigiPinError::LatitudeOutOfRange => "latitude out of range"@,
        DigiPinError::LongitudeOutOfRange => "longitude out of range"@,
        DigiPinError::InvalidLength => "invalid DIGIPIN length"@,
        DigiPinError::InvalidCharacter { character } => "invalid DIGIPIN character '"@ + seq![
            character,
        ] + "'"@,
    }
}

impl DigiPinError {
    /// Describes the error in words.
    pub fn message(&self) -> (m: String)
        ensures
            m@ == error_message(*self),
    {
        match self {
            DigiPinError::LatitudeOutOfRange => String::from_str("latitude out of range"),
            DigiPinError::LongitudeOutOfRange => String::from_str("longitude out of range"),
            DigiPinError::InvalidLength => String::from_str("invalid DIGIPIN length"),
            DigiPinError::InvalidCharacter { character } => {
                let mut m = String::from_str("invalid DIGIPIN character '");
                push_char(&mut m, *character);
                m.append("'");
                m
            },
        }
    }
}

/// The first character of `k` that is not a grid symbol, scanning from the front.
pub open spec fn first_invalid(k: Seq<char>) -> Option<char>
    decreases k.len(),
{
    if k.len() == 0 {
        None
    } else if !is_grid_char(k[0]) {
        Some(k[0])
    } else {
        first_invalid(k.drop_first())
    }
}

/// Ten symbols written as `XXX-XXX-XXXX`.
pub open spec fn canonical_form(k: Seq<char>) -> Seq<char> {
    k.subrange(0, 3) + seq!['-'] + k.subrange(3, 6) + seq!['-'] + k.subrange(6, 10)
}

/// What normalizing `s` gives: after compaction the code must take exactly ten
/// bytes in UTF-8 (else `InvalidLength`), every character must be a grid symbol
/// (else `InvalidCharacter` with the first one that is not), and the result is
/// the compacted code in canonical `XXX-XXX-XXXX` form.
pub open spec fn normalize_spec(s: Seq<char>) -> Result<Seq<char>, DigiPinError> {
    let k = compact_chars(s);
    if encode_utf8(k).len() != 10 {
        Err(DigiPinError::InvalidLength)
    } else {
        match first_invalid(k) {
            Some(c) => Err(DigiPinError::InvalidCharacter { character: c }),
            None => Ok(canonical_form(k)),
        }
    }
}

/// Views a result that carries a `String` by the characters of that string.
pub open spec fn string_result_view(r: Result<String, DigiPinError>) -> Result<
    Seq<char>,
    DigiPinError,
> {
    match r {
        Ok(s) => Ok(s@),
        Err(e) => Err(e),
    }
}

proof fn lemma_first_invalid_skip(k: Seq<char>, i: int)
    requires
        0 <= i < k.len(),
    ensures
        first_invalid(k.skip(i)) == if is_grid_char(k[i]) {
            first_invalid(k.skip(i + 1))
        } else {
            Some(k[i])
        },
{
    assert(k.skip(i).drop_first() =~= k.skip(i + 1));
}

/// A sequence of grid symbols is ASCII.
proof fn lemma_grid_chars_ascii(k: Seq<char>)
    requires
        forall|j: int| 0 <= j < k.len() ==> is_grid_char(#[trigger] k[j]),
    ensures
        is_ascii_chars(k),
{
    assert forall|j: int| 0 <= j < k.len() implies '\0' <= #[trigger] k[j] <= '\u{7f}' by {
        assert(is_grid_char(k[j]));
    }
}

/// The first invalid character stands at some place of `k`, after only grid symbols.
proof fn lemma_first_invalid_index(k: Seq<char>) -> (i: int)
    requires
        first_invalid(k) is Some,
    ensures
        0 <= i < k.len(),
        k[i] == first_invalid(k)->Some_0,
        !is_grid_char(k[i]),
        forall|j: int| 0 <= j < i ==> is_grid_char(#[trigger] k[j]),
    decreases k.len(),
{
    if !is_grid_char(k[0]) {
        0
    } else {
        let j = lemma_first_invalid_index(k.drop_first());
        assert forall|m: int| 0 <= m < j + 1 implies is_grid_char(#[trigger] k[m]) by {
            if m > 0 {
                assert(k[m] == k.drop_first()[m - 1]);
            }
        }
        j + 1
    }
}

/// A grid symbol is left alone by compaction.
pub proof fn lemma_grid_char_is_compact(c: char)
    requires
        is_grid_char(c),
    ensures
        is_compact_char(c),
        '\0' <= c <= '\u{7f}',
{
}

/// No character is reported invalid exactly when all are grid symbols.
pub proof fn lemma_first_invalid_none(k: Seq<char>)
    ensures
        first_invalid(k) is None <==> forall|i: int|
            0 <= i < k.len() ==> is_grid_char(#[trigger] k[i]),
    decreases k.len(),
{
    if k.len() > 0 {
        lemma_first_invalid_none(k.drop_first());
        if first_invalid(k) is None {
            assert forall|i: int| 0 <= i < k.len() implies is_grid_char(#[trigger] k[i]) by {
                if i > 0 {
                    assert(k[i] == k.drop_first()[i - 1]);
                }
            }
        } else if is_grid_char(k[0]) {
            assert(exists|i: int|
                0 <= i < k.drop_first().len() && !is_grid_char(#[trigger] k.drop_first()[i]));
            let i = choose|i: int|
                0 <= i < k.drop_first().len() && !is_grid_char(#[trigger] k.drop_first()[i]);
            assert(!is_grid_char(k[i + 1]));
        }
    }
}

/// Ten grid symbols in canonical form compact back to the symbols and
/// normalize to themselves.
pub proof fn lemma_canonical_form_normalizes(k: Seq<char>)
    requires
        k.len() == 10,
        forall|i: int| 0 <= i < k.len() ==> is_grid_char(#[trigger] k[i]),
    ensures
        compact_chars(canonical_form(k)) == k,
        normalize_spec(canonical_form(k)) == Ok::<Seq<char>, DigiPinError>(canonical_form(k)),
{
    assert forall|i: int| 0 <= i < k.len() implies is_compact_char(#[trigger] k[i]) by {
        lemma_grid_char_is_compact(k[i]);
    }
    let a = k.subrange(0, 3);
    let b = k.subrange(3, 6);
    let c = k.subrange(6, 10);
    let h = seq!['-'];
    lemma_compact_fixed(a);
    lemma_compact_fixed(b);
    lemma_compact_fixed(c);
    reveal_with_fuel(Seq::filter, 2);
    assert(h.drop_last() =~= Seq::<char>::empty());
    assert(compact_chars(h) =~= Seq::<char>::empty());
    lemma_compact_concat(a, h);
    lemma_compact_concat(a + h, b);
    lemma_compact_concat(a + h + b, h);
    lemma_compact_concat(a + h + b + h, c);
    assert(a + b + c =~= k);
    assert(compact_chars(canonical_form(k)) == k);
    lemma_grid_chars_ascii(k);
    is_ascii_chars_encode_utf8(k);
    lemma_first_invalid_none(k);
}

/// Normalizing is idempotent: a normalized code normalizes to itself.
pub proof fn normalize_is_idempotent(s: Seq<char>)
    requires
        normalize_spec(s) is Ok,
    ensures
        normalize_spec(normalize_spec(s)->Ok_0) == normalize_spec(s),
{
    let k = compact_chars(s);
    lemma_first_invalid_none(k);
    lemma_grid_chars_ascii(k);
    is_ascii_chars_encode_utf8(k);
    lemma_canonical_form_normalizes(k);
}

/// A normalized code is in canonical form: twelve characters, hyphens at the
/// fourth and eighth place, a grid symbol everywhere else.
pub proof fn normalized_code_is_canonical(s: Seq<char>)
    requires
        normalize_spec(s) is Ok,
    ensures
        ({
            let n = normalize_spec(s)->Ok_0;
            &&& n.len() == 12
            &&& n[3] == '-'
            &&& n[7] == '-'
            &&& forall|i: int| 0 <= i < 12 && i != 3 && i != 7 ==> is_grid_char(#[trigger] n[i])
        }),
{
    let k = compact_chars(s);
    lemma_first_invalid_none(k);
    lemma_grid_chars_ascii(k);
    is_ascii_chars_encode_utf8(k);
    let n = canonical_form(k);
    assert forall|i: int| 0 <= i < 12 && i != 3 && i != 7 implies is_grid_char(#[trigger] n[i]) by {
        if i < 3 {
            assert(n[i] == k[i]);
        } else if i < 7 {
            assert(n[i] == k[i - 1]);
        } else {
            assert(n[i] == k[i - 2]);
        }
    }
}

/// A code normalizes exactly when, after dropping hyphens and white space and
/// upper-casing ASCII letters, it is ten characters each one of the sixteen
/// India Post symbols F C 9 8 J 3 2 7 K 4 5 6 L M P T; the result is then those
/// ten symbols written `XXX-XXX-XXXX`. When a symbol is rejected, it is the first
/// character of the compacted code outside that set.
pub proof fn normalize_accepts_exactly_ten_official_symbols(s: Seq<char>)
    ensures
        normalize_spec(s) is Ok <==> ({
            let k = compact_chars(s);
            &&& k.len() == 10
            &&& forall|i: int| 0 <= i < k.len() ==> seq!['F', 'C', '9', '8', 'J', '3', '2', '7', 'K', '4', '5', '6', 'L', 'M', 'P', 'T'].contains(#[trigger] k[i])
        }),
        normalize_spec(s) is Ok ==> ({
            let k = compact_chars(s);
            let n = normalize_spec(s)->Ok_0;
            &&& n.len() == 12
            &&& n[3] == '-'
            &&& n[7] == '-'
            &&& n.subrange(0, 3) == k.subrange(0, 3)
            &&& n.subrange(4, 7) == k.subrange(3, 6)
            &&& n.subrange(8, 12) == k.subrange(6, 10)
        }),
        normalize_spec(s) matches Err(DigiPinError::InvalidCharacter { character }) ==> ({
            let k = compact_chars(s);
            &&& !seq!['F', 'C', '9', '8', 'J', '3', '2', '7', 'K', '4', '5', '6', 'L', 'M', 'P', 'T'].contains(character)
            &&& exists|i: int|
                0 <= i < k.len() && k[i] == character && forall|j: int|
                    0 <= j < i ==> seq!['F', 'C', '9', '8', 'J', '3', '2', '7', 'K', '4', '5', '6', 'L', 'M', 'P', 'T'].contains(#[trigger] k[j])
        }),
{
    let k = compact_chars(s);
    assert forall|i: int| 0 <= i < k.len() implies (is_grid_char(#[trigger] k[i]) <==> seq!['F', 'C', '9', '8', 'J', '3', '2', '7', 'K', '4', '5', '6', 'L', 'M', 'P', 'T'].contains(
        k[i],
    )) by {
        crate::grid::grid_lookup_follows_the_india_post_table(k[i]);
    }
    lemma_first_invalid_none(k);
    if normalize_spec(s) is Ok {
        lemma_grid_chars_ascii(k);
        is_ascii_chars_encode_utf8(k);
    }
    if k.len() == 10 && forall|i: int| 0 <= i < k.len() ==> seq!['F', 'C', '9', '8', 'J', '3', '2', '7', 'K', '4', '5', '6', 'L', 'M', 'P', 'T'].contains(#[trigger] k[i]) {
        assert forall|i: int| 0 <= i < k.len() implies is_grid_char(#[trigger] k[i]) by {
            assert(seq!['F', 'C', '9', '8', 'J', '3', '2', '7', 'K', '4', '5', '6', 'L', 'M', 'P', 'T'].contains(k[i]));
        }
        lemma_grid_chars_ascii(k);
        is_ascii_chars_encode_utf8(k);
    }
    if first_invalid(k) is Some {
        let i = lemma_first_invalid_index(k);
        crate::grid::grid_lookup_follows_the_india_post_table(k[i]);
    }
}

/// Normalizing does not depend on case, white space or hyphens: a code
/// normalizes as its compacted form does.
pub proof fn normalize_ignores_case_spacing_and_hyphens(s: Seq<char>)
    ensures
        normalize_spec(compact_chars(s)) == normalize_spec(s),
{
    lemma_compact_chars_are_compact(s);
    lemma_compact_fixed(compact_chars(s));
}

/// Normalizes a DIGIPIN to canonical `XXX-XXX-XXXX` format.
pub fn normalize(digipin: &str) -> (res: Result<String, DigiPinError>)
    ensures
        string_result_view(res) == normalize_spec(digipin@),
{
    broadcast use vstd::string::axiom_spec_iter;

    let compact = compact(digipin);
    let ghost k = compact@;
    if compact.as_str().as_bytes().len() != 10 {
        return Err(DigiPinError::InvalidLength);
    }
    assert(k.skip(0) =~= k);
    for ch in it: compact.as_str().chars()
        invariant
            it.seq() == k,
            k == compact@,
            k == compact_chars(digipin@),
            encode_utf8(k).len() == 10,
            first_invalid(k) == first_invalid(k.skip(it.index())),
            forall|j: int| 0 <= j < it.index() ==> is_grid_char(#[trigger] k[j]),
    {
        proof {
            lemma_first_invalid_skip(k, it.index());
        }
        if find_grid_position(ch).is_none() {
            return Err(DigiPinError::InvalidCharacter { character: ch });
        }
    }
    proof {
        assert(k.skip(k.len() as int) =~= Seq::<char>::empty());
        lemma_grid_chars_ascii(k);
        is_ascii_chars_encode_utf8(k);
        reveal_strlit("-");
    }
    let s: &str = compact.as_str();
    let mut res = String::from_str(s.substring_ascii(0, 3));
    res.append("-");
    res.append(s.substring_ascii(3, 6));
    res.append("-");
    res.append(s.substring_ascii(6, 10));
    assert(res@ =~= canonical_form(k));
    Ok(res)
}

/// Returns true if a string is a syntactically valid DIGIPIN.
pub fn is_valid(digipin: &str) -> (valid: bool)
    ensures
        valid <==> normalize_spec(digipin@) is Ok,
        valid <==> ({
            let k = compact_chars(digipin@);
            &&& k.len() == 10
            &&& forall|i: int| 0 <= i < k.len() ==> seq!['F', 'C', '9', '8', 'J', '3', '2', '7', 'K', '4', '5', '6', 'L', 'M', 'P', 'T'].contains(#[trigger] k[i])
        }),
{
    proof {
        normalize_accepts_exactly_ten_official_symbols(digipin@);
    }
    normalize(digipin).is_ok()
}

} // verus!
