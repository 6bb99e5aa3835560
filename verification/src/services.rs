//! Identifiers, timestamps and the JSON form of alias lists.
use vstd::prelude::*;

verus! {

#[verifier::external_type_specification]
#[verifier::external_body]
pub struct ExJsonError(serde_json::Error);

/// A lowercase hexadecimal digit.
pub open spec fn is_lower_hex(c: char) -> bool {
    ('0' <= c && c <= '9') || ('a' <= c && c <= 'f')
}

/// The hyphenated text of a random (version 4, RFC 4122 variant) UUID: 36
/// characters, hyphens at 8, 13, 18 and 23, lowercase hexadecimal digits elsewhere,
/// the version digit `4` at 14 and a variant digit among `8`, `9`, `a`, `b` at 19.
pub open spec fn is_uuid_v4_text(s: Seq<char>) -> bool {
    &&& s.len() == 36
    &&& forall|i: int| 0 <= i < 36 ==> if i == 8 || i == 13 || i == 18 || i == 23 {
        #[trigger] s[i] == '-'
    } else {
        is_lower_hex(s[i])
    }
    &&& s[14] == '4'
    &&& (s[19] == '8' || s[19] == '9' || s[19] == 'a' || s[19] == 'b')
}

/// `uuid::Uuid::new_v4` in its `Display` text. Its bits are random; whatever they
/// are, `new_v4` sets the version and variant bits and `Display` writes the
/// lowercase hyphenated form.
#[verifier::external_body]
pub(crate) fn new_uuid() -> (r: String)
    ensures
        is_uuid_v4_text(r@),
{
    uuid::Uuid::new_v4().to_string()
}

/// The offset suffix of an RFC 3339 time in UTC, as `to_rfc3339` writes it.
pub open spec fn utc_offset_suffix() -> Seq<char> {
    seq!['+', '0', '0', ':', '0', '0']
}

/// A decimal digit.
pub open spec fn is_digit(c: char) -> bool {
    '0' <= c && c <= '9'
}

/// Every character of `s` is a decimal digit.
pub open spec fn all_digits(s: Seq<char>) -> bool {
    forall|i: int| 0 <= i < s.len() ==> is_digit(#[trigger] s[i])
}

/// A year as `to_rfc3339` writes it: four digits, or (outside 0 to 9999) a sign and at
/// least four digits.
pub open spec fn is_year_text(y: Seq<char>) -> bool {
    ||| y.len() == 4 && all_digits(y)
    ||| y.len() >= 5 && (y[0] == '+' || y[0] == '-') && all_digits(y.drop_first())
}

/// `-MM-DDTHH:MM:SS`: month, day, hour, minute and second, two digits each.
pub open spec fn is_date_time_tail(t: Seq<char>) -> bool {
    &&& t.len() == 15
    &&& t[0] == '-' && t[3] == '-' && t[6] == 'T' && t[9] == ':' && t[12] == ':'
    &&& forall|i: int| 0 <= i < 15 && i != 0 && i != 3 && i != 6 && i != 9 && i != 12 ==> is_digit(#[trigger] t[i])
}

/// The fraction of a second as `to_rfc3339` writes it: none, or `.` and three, six or
/// nine digits.
pub open spec fn is_fraction_text(f: Seq<char>) -> bool {
    ||| f.len() == 0
    ||| (f.len() == 4 || f.len() == 7 || f.len() == 10) && f[0] == '.' && all_digits(f.drop_first())
}

/// RFC 3339 text of a time in UTC as `to_rfc3339` writes it: year, the rest of the
/// date and the time of day, a fraction of a second if any, and `+00:00`.
pub open spec fn is_rfc3339_utc_text(s: Seq<char>) -> bool {
    exists|y: Seq<char>, t: Seq<char>, f: Seq<char>|
        #![trigger is_year_text(y), is_date_time_tail(t), is_fraction_text(f)]
        is_year_text(y) && is_date_time_tail(t) && is_fraction_text(f) && s == y + t + f + utc_offset_suffix()
}

/// `chrono::Utc::now` in `to_rfc3339` text. The clock's reading is not stated;
/// whatever it is, `write_rfc3339` writes the year, two-digit date and time fields, the
/// automatic fraction of a second (none, or 3, 6 or 9 digits), and the zero offset as
/// `+00:00`.
#[verifier::external_body]
pub(crate) fn now_rfc3339() -> (r: String)
    ensures
        is_rfc3339_utc_text(r@),
{
    chrono::Utc::now().to_rfc3339()
}

/// A lowercase hexadecimal digit for `n` (0 to 15).
pub open spec fn hex_digit(n: int) -> char {
    if n < 10 {
        (('0' as int) + n) as char
    } else {
        (('a' as int) + n - 10) as char
    }
}

/// How `serde_json` writes one character inside a JSON string: `"` and `\` after a
/// backslash; backspace, tab, line feed, form feed and carriage return as `\b`,
/// `\t`, `\n`, `\f`, `\r`; any other character below U+0020 as `\u00` and two
/// lowercase hexadecimal digits; every other character as it is.
pub open spec fn json_escaped_char(c: char) -> Seq<char> {
    if c == '"' {
        seq!['\\', '"']
    } else if c == '\\' {
        seq!['\\', '\\']
    } else if c == '\u{8}' {
        seq!['\\', 'b']
    } else if c == '\t' {
        seq!['\\', 't']
    } else if c == '\n' {
        seq!['\\', 'n']
    } else if c == '\u{c}' {
        seq!['\\', 'f']
    } else if c == '\r' {
        seq!['\\', 'r']
    } else if (c as int) < 0x20 {
        seq!['\\', 'u', '0', '0', hex_digit((c as int) / 16), hex_digit((c as int) % 16)]
    } else {
        seq![c]
    }
}

/// A JSON string literal of `s`, as `serde_json` writes it.
pub open spec fn json_string(s: Seq<char>) -> Seq<char> {
    seq!['"'] + json_escaped(s) + seq!['"']
}

/// The characters of `s`, each as `json_escaped_char` writes it.
pub open spec fn json_escaped(s: Seq<char>) -> Seq<char>
    decreases s.len(),
{
    if s.len() == 0 {
        Seq::empty()
    } else {
        json_escaped(s.drop_last()) + json_escaped_char(s.last())
    }
}

/// The JSON string literals of `v`, separated by commas.
pub open spec fn json_items(v: Seq<Seq<char>>) -> Seq<char>
    decreases v.len(),
{
    if v.len() == 0 {
        Seq::empty()
    } else if v.len() == 1 {
        json_string(v[0])
    } else {
        json_items(v.drop_last()) + seq![','] + json_string(v.last())
    }
}

/// The JSON text that `serde_json::to_string` gives for a list of strings: the compact
/// array form, `[`, the string literals separated by commas, `]`.
pub open spec fn json_of_strings(v: Seq<Seq<char>>) -> Seq<char> {
    seq!['['] + json_items(v) + seq![']']
}

/// What `serde_json::from_str` reads as a list of strings from `s`, if it can.
pub uninterp spec fn strings_of_json(s: Seq<char>) -> Option<Seq<Seq<char>>>;

/// `serde_json::to_string` on a list of strings. Writing strings into an in-memory
/// buffer cannot fail, so it succeeds, and the text reads back, through
/// `serde_json::from_str`, as the same list.
#[verifier::external_body]
pub(crate) fn strings_to_json(v: &Vec<String>) -> (r: Result<String, serde_json::Error>)
    ensures
        match r {
            Ok(s) => s@ == json_of_strings(v.deep_view()) && strings_of_json(s@) == Some(v.deep_view()),
            Err(_) => false,
        },
{
    serde_json::to_string(v)
}

/// `serde_json::from_str` reading a list of strings.
#[verifier::external_body]
pub(crate) fn strings_from_json(s: &str) -> (r: Result<Vec<String>, serde_json::Error>)
    ensures
        match r {
            Ok(v) => strings_of_json(s@) == Some(v.deep_view()),
            Err(_) => strings_of_json(s@) is None,
        },
{
    serde_json::from_str(s)
}

} // verus!
