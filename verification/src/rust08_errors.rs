//! Error handling: `Result` for expected failures, an error enum for a
//! configuration reader, and `Option` turned into errors.
use vstd::prelude::*;
use vstd::string::*;
use core::num::ParseIntError;
use crate::rust03_functions::{divmod, trunc_div};
use crate::strings::{
    chars_of, copy_range, find_from, lines, next_line, parse_unsigned, range_equals, seg_len,
    str_equals, trim, trim_bounds,
};

verus! {

#[verifier::external_type_specification]
#[verifier::external_body]
pub struct ExParseIntError(ParseIntError);

/// What can go wrong while reading a `key = value` configuration.
#[derive(Debug)]
pub enum ConfigError {
    /// No line defines the key.
    MissingKey(String),
    /// The value of `key` is not a number.
    NotANumber { key: String, source: ParseIntError },
}

impl ConfigError {
    /// The message shown to a user: which key is missing, or which key is
    /// not a number and why.
    pub fn message(&self) -> (s: String)
        ensures
            self matches ConfigError::MissingKey(k) ==> s@ == "缺少配置项 `"@ + k@ + "`"@,
            self matches ConfigError::NotANumber { key, .. } ==> ("配置项 `"@ + key@ + "` 不是数字："@).is_prefix_of(s@),
    {
        match self {
            ConfigError::MissingKey(key) => {
                let mut s = String::from_str("缺少配置项 `");
                s.append(key.as_str());
                s.append("`");
                s
            },
            ConfigError::NotANumber { key, source } => {
                let mut s = String::from_str("配置项 `");
                s.append(key.as_str());
                s.append("` 不是数字：");
                let ghost head = s@;
                s.append(source.to_string().as_str());
                assert(head =~= s@.take(head.len() as int));
                s
            },
        }
    }
}

impl ConfigError {
    /// A number that failed to parse, as the error of its field: the
    /// conversion `?` applies to a `ParseIntError` (the key reads `value`).
    pub fn from_parse_error(source: ParseIntError) -> (e: Self)
        ensures
            e matches ConfigError::NotANumber { key, source: s } && key@ == "value"@ && s == source,
    {
        ConfigError::NotANumber { key: String::from_str("value"), source }
    }
}

/// The value of `key` among `key = value` lines: the first line that holds
/// an `=` and whose part before it, trimmed, is `key`; the part after the
/// `=`, trimmed.
pub open spec fn field_in(ls: Seq<Seq<char>>, key: Seq<char>) -> Option<Seq<char>>
    decreases ls.len(),
{
    if ls.len() == 0 {
        None
    } else {
        let line = ls[0];
        let n = seg_len(line, '=');
        if n < line.len() && trim(line.take(n as int)) == key {
            Some(trim(line.skip(n as int + 1)))
        } else {
            field_in(ls.drop_first(), key)
        }
    }
}

/// Reads the value of `key` from `key = value` lines.
pub fn read_field<'a>(text: &'a str, key: &str) -> (r: Result<&'a str, ConfigError>)
    ensures
        match field_in(lines(text@), key@) {
            Some(value) => r matches Ok(v) && v@ == value,
            None => r matches Err(ConfigError::MissingKey(k)) && k@ == key@,
        },
{
    let v = chars_of(text);
    let want = chars_of(key);
    let mut i: usize = 0;
    assert(v@.skip(0) =~= v@);
    loop
        invariant
            i <= v@.len(),
            want@ == key@,
            v@ == text@,
            field_in(lines(text@), key@) == field_in(lines(v@.skip(i as int)), key@),
        decreases v@.len() - i,
    {
        match next_line(&v, i) {
            None => {
                return Err(ConfigError::MissingKey(String::from_str(key)));
            },
            Some((a, b, next)) => {
                let line = copy_range(&v, a, b);
                let eq = find_from(&line, 0, '=');
                assert(line@.skip(0) =~= line@);
                let ghost ls = lines(v@.skip(i as int));
                assert(ls[0] == line@);
                assert(ls.drop_first() =~= lines(v@.skip(next as int)));
                if eq < line.len() {
                    let key_part = copy_range(&line, 0, eq);
                    let (ks, ke) = trim_bounds(&key_part);
                    assert(key_part@ =~= line@.take(eq as int));
                    if range_equals(&key_part, ks, ke, &want) {
                        let value_part = copy_range(&line, eq + 1, line.len());
                        let (vs, ve) = trim_bounds(&value_part);
                        assert(value_part@ =~= line@.skip(eq + 1));
                        let from = a + eq + 1 + vs;
                        let to = a + eq + 1 + ve;
                        assert(v@.subrange(from as int, to as int) =~= value_part@.subrange(vs as int, ve as int));
                        return Ok(text.substring_char(from, to));
                    }
                }
                i = next;
            },
        }
    }
}

/// `u16::from_str`: an optional `+` and decimal digits whose value fits
/// `u16`, otherwise the parse error.
#[verifier::external_body]
pub(crate) fn parse_u16(text: &str) -> (r: Result<u16, ParseIntError>)
    ensures
        match r {
            Ok(p) => parse_unsigned(text@, 65535) == Some(p as nat),
            Err(_) => parse_unsigned(text@, 65535) is None,
        },
{
    text.parse::<u16>()
}

/// The port of a `key = value` configuration: the value of `port`,
/// parsed as `u16`.
pub fn parse_port(text: &str) -> (r: Result<u16, ConfigError>)
    ensures
        match field_in(lines(text@), "port"@) {
            None => r matches Err(ConfigError::MissingKey(k)) && k@ == "port"@,
            Some(raw) => match parse_unsigned(raw, 65535) {
                Some(p) => r == Ok::<u16, ConfigError>(p as u16),
                None => r matches Err(ConfigError::NotANumber { key, .. }) && key@ == "value"@,
            },
        },
{
    let raw = match read_field(text, "port") {
        Ok(raw) => raw,
        Err(error) => return Err(error),
    };
    match parse_u16(raw) {
        Ok(port) => Ok(port),
        Err(source) => Err(ConfigError::from_parse_error(source)),
    }
}

/// Division that reports a zero divisor instead of panicking.
pub fn divide(a: i32, b: i32) -> (r: Result<i32, String>)
    requires
        !(a == i32::MIN && b == -1),
    ensures
        b == 0 ==> (r matches Err(m) && m@ == "除数不能为 0"@),
        b != 0 ==> r == Ok::<i32, String>(trunc_div(a as int, b as int) as i32),
{
    if b == 0 {
        Err(String::from_str("除数不能为 0"))
    } else {
        let (q, _) = divmod(a, b);
        Ok(q)
    }
}

/// Signed `from_str` for a type with range `min..=max`: an optional sign,
/// then decimal digits whose value fits.
pub open spec fn parse_signed(s: Seq<char>, min: int, max: int) -> Option<int> {
    if s.len() > 0 && s[0] == '-' {
        match parse_unsigned(seq!['+'] + s.drop_first(), (-min) as nat) {
            Some(v) => Some(-v),
            None => None,
        }
    } else {
        match parse_unsigned(s, max as nat) {
            Some(v) => Some(v as int),
            None => None,
        }
    }
}

/// `i32::from_str`.
#[verifier::external_body]
fn parse_i32(text: &str) -> (r: Result<i32, ParseIntError>)
    ensures
        match r {
            Ok(n) => parse_signed(text@, i32::MIN as int, i32::MAX as int) == Some(n as int),
            Err(_) => parse_signed(text@, i32::MIN as int, i32::MAX as int) is None,
        },
{
    text.parse::<i32>()
}

/// Twice the number in `text` (surrounding whitespace allowed).
pub fn double(text: &str) -> (r: Result<i32, ParseIntError>)
    requires
        parse_signed(trim(text@), i32::MIN as int, i32::MAX as int) matches Some(n) ==> i32::MIN <= 2 * n <= i32::MAX,
    ensures
        match parse_signed(trim(text@), i32::MIN as int, i32::MAX as int) {
            Some(n) => r matches Ok(d) && d == 2 * n,
            None => r is Err,
        },
{
    let v = chars_of(text);
    let (a, b) = trim_bounds(&v);
    let trimmed = text.substring_char(a, b);
    let n = match parse_i32(trimmed) {
        Ok(n) => n,
        Err(e) => return Err(e),
    };
    Ok(n * 2)
}

/// Position of the first user named `name`.
pub fn find_user(users: &[&str], name: &str) -> (r: Option<usize>)
    ensures
        match r {
            Some(k) => k < users@.len() && users@[k as int]@ == name@ && forall|j: int|
                0 <= j < k ==> users@[j]@ != name@,
            None => forall|j: int| 0 <= j < users@.len() ==> users@[j]@ != name@,
        },
{
    let mut i: usize = 0;
    while i < users.len()
        invariant
            i <= users@.len(),
            forall|j: int| 0 <= j < i ==> users@[j]@ != name@,
        decreases users@.len() - i,
    {
        if str_equals(users[i], name) {
            return Some(i);
        }
        i = i + 1;
    }
    None
}

} // verus!
