//! Text helpers shared by the node's modules, and the outside calls that only
//! compute on text: decimal rendering, hex encoding, number parsing and
//! query-string lookup.
use vstd::prelude::*;
use qstring::QString;

verus! {

// ---------------------------------------------------------------------------
// Decimal rendering of unsigned integers
// ---------------------------------------------------------------------------

/// The ASCII digit for `d` (`d < 10`).
pub open spec fn digit_char(d: nat) -> char {
    seq!['0', '1', '2', '3', '4', '5', '6', '7', '8', '9'][d as int]
}

/// Decimal notation of `n`, without leading zeros ("0" for zero).
pub open spec fn spec_decimal(n: nat) -> Seq<char>
    decreases n,
{
    if n < 10 {
        seq![digit_char(n)]
    } else {
        spec_decimal(n / 10).push(digit_char(n % 10))
    }
}

/// Decimal notation of `n` (what `n.to_string()` gives).
pub fn u32_to_string(n: u32) -> (res: String)
    ensures
        res@ == spec_decimal(n as nat),
    decreases n,
{
    let digits = "0123456789";
    proof {
        reveal_strlit("0123456789");
    }
    let d = (n % 10) as usize;
    let last = digits.substring_char(d, d + 1);
    assert(last@ =~= seq![digit_char(d as nat)]);
    if n < 10 {
        String::from_str(last)
    } else {
        let mut res = u32_to_string(n / 10);
        res.append(last);
        res
    }
}

// ---------------------------------------------------------------------------
// Patterns for SQL `LIKE` searches
// ---------------------------------------------------------------------------

/// `s` with every double quote removed.
pub open spec fn spec_without_double_quotes(s: Seq<char>) -> Seq<char>
    decreases s.len(),
{
    if s.len() == 0 {
        s
    } else if s.last() == '"' {
        spec_without_double_quotes(s.drop_last())
    } else {
        spec_without_double_quotes(s.drop_last()).push(s.last())
    }
}

/// Law: no double quote is left once they are removed, and every other
/// character is kept.
pub proof fn lemma_without_double_quotes(s: Seq<char>)
    ensures
        !spec_without_double_quotes(s).contains('"'),
        spec_without_double_quotes(s).len() <= s.len(),
        (forall|i: int| 0 <= i < s.len() ==> s[i] != '"') ==> spec_without_double_quotes(s) == s,
    decreases s.len(),
{
    if s.len() > 0 {
        lemma_without_double_quotes(s.drop_last());
        let p = spec_without_double_quotes(s.drop_last());
        if s.last() != '"' {
            assert forall|i: int| 0 <= i < p.push(s.last()).len() implies p.push(s.last())[i] != '"' by {
                if i < p.len() {
                    assert(p.push(s.last())[i] == p[i]);
                    assert(!p.contains('"'));
                }
            }
        }
        if forall|i: int| 0 <= i < s.len() ==> s[i] != '"' {
            assert forall|i: int| 0 <= i < s.drop_last().len() implies s.drop_last()[i] != '"' by {
                assert(s.drop_last()[i] == s[i]);
            }
            assert(s[s.len() - 1] != '"');
            assert(s.drop_last().push(s.last()) =~= s);
        }
    } else {
        assert(spec_without_double_quotes(s) =~= Seq::<char>::empty());
    }
}

/// `%s%`: a pattern matching every text that contains `s`.
pub open spec fn spec_like_pattern(s: Seq<char>) -> Seq<char> {
    seq!['%'] + s + seq!['%']
}

/// Copies `s` with every `"` character removed (`str::replace("\"", "")`).
pub fn without_double_quotes(s: &str) -> (res: String)
    ensures
        res@ == spec_without_double_quotes(s@),
{
    let n = s.unicode_len();
    let mut res = String::new();
    let mut i: usize = 0;
    while i < n
        invariant
            n == s@.len(),
            i <= n,
            res@ == spec_without_double_quotes(s@.take(i as int)),
        decreases n - i,
    {
        let c = s.get_char(i);
        assert(s@.take(i + 1).drop_last() =~= s@.take(i as int));
        if c != '"' {
            res.append(s.substring_char(i, i + 1));
            assert(s@.subrange(i as int, i + 1) =~= seq![c]);
        }
        i = i + 1;
    }
    assert(s@.take(n as int) =~= s@);
    res
}

/// Surrounds `s` with `%` wildcards.
pub fn like_pattern(s: &str) -> (res: String)
    ensures
        res@ == spec_like_pattern(s@),
{
    let mut res = String::from_str("%");
    res.append(s);
    res.append("%");
    proof {
        reveal_strlit("%");
    }
    res
}

// ---------------------------------------------------------------------------
// Hex encoding
// ---------------------------------------------------------------------------

/// The lower-case hex digit for `d` (`d < 16`).
pub open spec fn hex_digit(d: nat) -> char {
    seq!['0', '1', '2', '3', '4', '5', '6', '7', '8', '9', 'a', 'b', 'c', 'd', 'e', 'f'][d as int]
}

/// Lower-case hex of `bytes`: two digits per byte, high nibble first.
pub open spec fn spec_hex_lower(bytes: Seq<u8>) -> Seq<char>
    decreases bytes.len(),
{
    if bytes.len() == 0 {
        Seq::empty()
    } else {
        spec_hex_lower(bytes.drop_last()).push(hex_digit(bytes.last() as nat / 16)).push(
            hex_digit(bytes.last() as nat % 16),
        )
    }
}

/// Law: the hex text of `bytes` has two digits per byte.
pub proof fn lemma_hex_length(bytes: Seq<u8>)
    ensures
        spec_hex_lower(bytes).len() == 2 * bytes.len(),
    decreases bytes.len(),
{
    if bytes.len() > 0 {
        lemma_hex_length(bytes.drop_last());
    }
}

/// `hex::encode`: its documentation and source (`encode_hex` with the
/// lower-case table) write each byte as two lower-case hex digits, high
/// nibble first, in order.
#[verifier::external_body]
pub(crate) fn hex_encode(data: &[u8]) -> (res: String)
    ensures
        res@ == spec_hex_lower(data@),
{
    hex::encode(data)
}

// ---------------------------------------------------------------------------
// Numbers stored as option text
// ---------------------------------------------------------------------------

#[verifier::external_type_specification]
#[verifier::external_body]
pub struct ExJsonError(serde_json::Error);

/// What `serde_json::from_str::<u32>` reads from `text`, `None` where it fails.
pub uninterp spec fn json_u32(text: Seq<char>) -> Option<u32>;

/// What `serde_json::from_str::<i64>` reads from `text`, `None` where it fails.
pub uninterp spec fn json_i64(text: Seq<char>) -> Option<i64>;

/// What `serde_json::from_str::<usize>` reads from `text`, `None` where it fails.
pub uninterp spec fn json_usize(text: Seq<char>) -> Option<usize>;

/// `serde_json::from_str::<u32>`. The contract only ties the outcome to the
/// text through the name `json_u32`; JSON's number grammar is not written out.
#[verifier::external_body]
pub(crate) fn parse_json_u32(text: &str) -> (res: Result<u32, serde_json::Error>)
    ensures
        res is Ok <==> json_u32(text@) is Some,
        res matches Ok(v) ==> json_u32(text@) == Some(v),
{
    serde_json::from_str::<u32>(text)
}

/// `serde_json::from_str::<i64>`, tied to the text through the name `json_i64`.
#[verifier::external_body]
pub(crate) fn parse_json_i64(text: &str) -> (res: Result<i64, serde_json::Error>)
    ensures
        res is Ok <==> json_i64(text@) is Some,
        res matches Ok(v) ==> json_i64(text@) == Some(v),
{
    serde_json::from_str::<i64>(text)
}

/// `serde_json::from_str::<usize>`, tied to the text through the name `json_usize`.
#[verifier::external_body]
pub(crate) fn parse_json_usize(text: &str) -> (res: Result<usize, serde_json::Error>)
    ensures
        res is Ok <==> json_usize(text@) is Some,
        res matches Ok(v) ==> json_usize(text@) == Some(v),
{
    serde_json::from_str::<usize>(text)
}

// ---------------------------------------------------------------------------
// Decimal parsing of signed integers (std `str::parse::<i64>`)
// ---------------------------------------------------------------------------

pub open spec fn is_ascii_digit(c: char) -> bool {
    '0' <= c <= '9'
}

/// Value of a string of ASCII digits.
pub open spec fn digits_value(s: Seq<char>) -> int
    decreases s.len(),
{
    if s.len() == 0 {
        0
    } else {
        digits_value(s.drop_last()) * 10 + (s.last() as int - '0' as int)
    }
}

/// std's `FromStr` for `i64`: an optional `+` or `-` followed by at least one
/// ASCII digit and nothing else; values outside `i64` are refused.
pub open spec fn spec_parse_i64(s: Seq<char>) -> Option<i64> {
    let negative = s.len() > 0 && s[0] == '-';
    let body = if s.len() > 0 && (s[0] == '-' || s[0] == '+') {
        s.drop_first()
    } else {
        s
    };
    let value = if negative {
        -digits_value(body)
    } else {
        digits_value(body)
    };
    if body.len() > 0 && (forall|i: int| 0 <= i < body.len() ==> is_ascii_digit(#[trigger] body[i]))
        && i64::MIN <= value <= i64::MAX {
        Some(value as i64)
    } else {
        None
    }
}

#[verifier::external_type_specification]
#[verifier::external_body]
pub struct ExParseIntError(core::num::ParseIntError);

/// `str::parse::<i64>`: per std's documentation of `i64::from_str`, an optional
/// sign and decimal digits, refused when empty, malformed or out of range.
#[verifier::external_body]
pub(crate) fn parse_i64(text: &str) -> (res: Result<i64, core::num::ParseIntError>)
    ensures
        res is Ok <==> spec_parse_i64(text@) is Some,
        res matches Ok(v) ==> spec_parse_i64(text@) == Some(v),
{
    text.parse::<i64>()
}

/// std's `FromStr` for `u32`: an optional `+` followed by at least one ASCII
/// digit and nothing else; a `-` sign and values above `u32::MAX` are refused.
pub open spec fn spec_parse_u32(s: Seq<char>) -> Option<u32> {
    let body = if s.len() > 0 && s[0] == '+' {
        s.drop_first()
    } else {
        s
    };
    if body.len() > 0 && (forall|i: int| 0 <= i < body.len() ==> is_ascii_digit(#[trigger] body[i]))
        && digits_value(body) <= u32::MAX {
        Some(digits_value(body) as u32)
    } else {
        None
    }
}

/// `str::parse::<u32>`: per std's documentation of `u32::from_str`, an
/// optional `+` and decimal digits, refused when empty, malformed or out of
/// range.
#[verifier::external_body]
pub(crate) fn parse_u32(text: &str) -> (res: Result<u32, core::num::ParseIntError>)
    ensures
        res is Ok <==> spec_parse_u32(text@) is Some,
        res matches Ok(v) ==> spec_parse_u32(text@) == Some(v),
{
    text.parse::<u32>()
}

/// The `u32` written in `text` as std reads it (such as a configured block
/// count), `None` when it is no such number.
pub fn read_u32(text: &str) -> (res: Option<u32>)
    ensures
        res == spec_parse_u32(text@),
{
    match parse_u32(text) {
        Ok(v) => Some(v),
        Err(_) => None,
    }
}

/// The `u32` written in `text` as `serde_json` reads it (a stored block
/// height, a configured threshold), `None` when it reads none.
pub fn read_json_u32(text: &str) -> (res: Option<u32>)
    ensures
        res == json_u32(text@),
{
    match parse_json_u32(text) {
        Ok(v) => Some(v),
        Err(_) => None,
    }
}

// ---------------------------------------------------------------------------
// Query strings (qstring)
// ---------------------------------------------------------------------------

#[verifier::external_type_specification]
#[verifier::external_body]
pub struct ExQString(QString);

/// The `(name, value)` pairs a `QString` holds, in order; `None` stands for a
/// parameter written without `=`.
pub uninterp spec fn query_pairs(qs: QString) -> Seq<(Seq<char>, Option<Seq<char>>)>;

/// The pairs that `QString::from` finds in a query string (splitting on `&`
/// and `=`, percent-decoding); not written out here.
pub uninterp spec fn parsed_query(query: Seq<char>) -> Seq<(Seq<char>, Option<Seq<char>>)>;

/// The value `QString::get` returns for `name`: that of the first pair with
/// this name, `""` for a pair without value, `None` when no pair has it.
pub open spec fn query_lookup(pairs: Seq<(Seq<char>, Option<Seq<char>>)>, name: Seq<char>) -> Option<
    Seq<char>,
>
    decreases pairs.len(),
{
    if pairs.len() == 0 {
        None
    } else if pairs[0].0 == name {
        match pairs[0].1 {
            Some(v) => Some(v),
            None => Some(Seq::empty()),
        }
    } else {
        query_lookup(pairs.drop_first(), name)
    }
}

/// Whether `c` is stored in one byte of UTF-8 (an ASCII character).
pub open spec fn is_one_byte(c: char) -> bool {
    (c as u32) < 128
}

/// Reading a query from position `p` in `mode`: 0 at the start of a
/// parameter, 1 inside a non-empty name, 2 inside a value. `QString::from`
/// slices off the first byte of each parameter (after a `&`, or after an `=`
/// that opens a parameter without name); it holds when that character is
/// one byte long.
pub open spec fn query_parses_from(s: Seq<char>, mode: int, p: int) -> bool
    decreases s.len() - p,
{
    if p < 0 || p >= s.len() {
        true
    } else if mode == 0 {
        if !is_one_byte(s[p]) {
            false
        } else if s[p] == '&' || s[p] == '=' {
            query_parses_from(s, 0, p + 1)
        } else {
            query_parses_from(s, 1, p + 1)
        }
    } else if mode == 1 {
        if s[p] == '&' {
            query_parses_from(s, 0, p + 1)
        } else if s[p] == '=' {
            query_parses_from(s, 2, p + 1)
        } else {
            query_parses_from(s, 1, p + 1)
        }
    } else if s[p] == '&' {
        query_parses_from(s, 0, p + 1)
    } else {
        query_parses_from(s, 2, p + 1)
    }
}

/// The query strings `QString::from` reads without panicking: the empty
/// query, or one whose first character (tested for a leading `?`) and the
/// first character of every parameter are one byte long.
pub open spec fn query_parses(s: Seq<char>) -> bool {
    s.len() == 0 || (is_one_byte(s[0]) && query_parses_from(
        s,
        0,
        if s[0] == '?' {
            1
        } else {
            0
        },
    ))
}

/// Whether `QString::from` can read `query` (see `query_parses`).
pub fn query_parsable(query: &str) -> (res: bool)
    ensures
        res == query_parses(query@),
{
    let n = query.unicode_len();
    if n == 0 {
        return true;
    }
    let c0 = query.get_char(0);
    if (c0 as u32) >= 128 {
        return false;
    }
    let mut i: usize = if c0 == '?' {
        1
    } else {
        0
    };
    let mut mode: u8 = 0;
    while i < n
        invariant
            n == query@.len(),
            i <= n,
            mode <= 2,
            query@.len() > 0 && is_one_byte(query@[0]),
            query_parses(query@) == query_parses_from(query@, mode as int, i as int),
        decreases n - i,
    {
        let c = query.get_char(i);
        if mode == 0 {
            if (c as u32) >= 128 {
                return false;
            }
            if c == '&' || c == '=' {
                mode = 0;
            } else {
                mode = 1;
            }
        } else if mode == 1 {
            if c == '&' {
                mode = 0;
            } else if c == '=' {
                mode = 2;
            }
        } else {
            if c == '&' {
                mode = 0;
            }
        }
        i = i + 1;
    }
    true
}

/// `QString::from(&str)`: the pairs of the parsed query, named `parsed_query`.
/// Its source slices `&cur[0..1]` off each parameter, which panics on a
/// character longer than one byte there; `requires` leaves those queries out.
#[verifier::external_body]
pub(crate) fn parse_query(query: &str) -> (qs: QString)
    requires
        query_parses(query@),
    ensures
        query_pairs(qs) == parsed_query(query@),
{
    QString::from(query)
}

/// `QString::get`: its source finds the first pair whose name equals `name`
/// and returns its value, `""` for a pair without value.
#[verifier::external_body]
pub(crate) fn query_get(qs: &QString, name: &str) -> (res: Option<String>)
    ensures
        res is Some <==> query_lookup(query_pairs(*qs), name@) is Some,
        res matches Some(v) ==> query_lookup(query_pairs(*qs), name@) == Some(v@),
{
    match qs.get(name) {
        Some(v) => Some(v.to_string()),
        None => None,
    }
}

} // verus!
