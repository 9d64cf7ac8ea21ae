//! Task files: the Markdown files with YAML frontmatter that define
//! scheduled tasks, and the checks a task passes before it is stored.
use vstd::prelude::*;
use crate::scheduler::{ScheduledTaskEdit, ScheduledTaskDestination, TaskEditView};
use crate::text::{append_str, chars_of, chars_range, starts_with_chars, string_of, trim, trim_chars};
use crate::keyed::TextTable;
use crate::agent::str_eq;

verus! {

/// Declares base64's decoding error, which the library only carries.
#[verifier::external_type_specification]
#[verifier::external_body]
pub struct ExDecodeError(base64::DecodeError);

/// Declares serde_json's error, which the library only carries.
#[verifier::external_type_specification]
#[verifier::external_body]
pub struct ExJsonError(serde_json::Error);

/// What base64's standard engine (padded alphabet) decodes `text` to, when
/// `text` is valid base64.
pub uninterp spec fn base64_decoded(text: Seq<char>) -> Option<Seq<u8>>;

/// Calls `Engine::decode` of base64's `STANDARD` engine. It fails exactly
/// when `base64_decoded` has no value for the text, and otherwise gives that value.
#[verifier::external_body]
fn base64_decode(text: &str) -> (r: Result<Vec<u8>, base64::DecodeError>)
    ensures
        r is Ok <==> base64_decoded(text@) is Some,
        r matches Ok(b) ==> Some(b@) == base64_decoded(text@),
{
    base64::Engine::decode(&base64::engine::general_purpose::STANDARD, text)
}

/// The message of a base64 decoding error (its `Display`). Nothing is
/// stated of the text.
#[verifier::external_body]
fn describe_decode_error(e: &base64::DecodeError) -> String {
    format!("{e}")
}

/// The string that the JSON string literal `text` stands for, when `text`
/// is exactly one JSON string (`serde_json::from_str::<String>`).
pub uninterp spec fn json_string_value(text: Seq<char>) -> Option<Seq<char>>;

/// Calls `serde_json::from_str::<String>`. It fails exactly when
/// `json_string_value` has no value for the text, and otherwise gives that value.
#[verifier::external_body]
fn json_string_from(text: &str) -> (r: Result<String, serde_json::Error>)
    ensures
        r is Ok <==> json_string_value(text@) is Some,
        r matches Ok(v) ==> Some(v@) == json_string_value(text@),
{
    serde_json::from_str::<String>(text)
}

/// The message of a JSON error (its `Display`). Nothing is stated of the text.
#[verifier::external_body]
fn describe_json_error(e: &serde_json::Error) -> String {
    format!("{e}")
}

/// The text that `bytes` encode in UTF-8, when they are valid UTF-8.
pub uninterp spec fn utf8_text(bytes: Seq<u8>) -> Option<Seq<char>>;

/// Calls `std::str::from_utf8`: the text when the bytes are valid UTF-8.
#[verifier::external_body]
fn decode_utf8(bytes: &[u8]) -> (r: Option<String>)
    ensures
        match utf8_text(bytes@) {
            Some(t) => r matches Some(s) && s@ == t,
            None => r is None,
        },
{
    std::str::from_utf8(bytes).ok().map(str::to_owned)
}

/// The stem of the last component of a path (`Path::file_stem`), when it
/// has one.
pub uninterp spec fn path_file_stem(path: Seq<char>) -> Option<Seq<char>>;

/// Calls `Path::file_stem` on `path`.
#[verifier::external_body]
fn file_stem_of(path: &str) -> (r: Option<String>)
    ensures
        match path_file_stem(path@) {
            Some(t) => r matches Some(s) && s@ == t,
            None => r is None,
        },
{
    std::path::Path::new(path).file_stem().and_then(|stem| stem.to_str()).map(str::to_owned)
}

/// Why a task file was refused: a fixed message, or a decoder's error
/// after a fixed prefix.
pub enum TaskError {
    Message(Seq<char>),
    BadQuotedValue,
    BadEncodedDestination,
}

/// The message `e` reports the task error `err`, as far as it is fixed.
pub open spec fn reports(e: String, err: TaskError) -> bool {
    reports_text(e@, err)
}

/// The text `t` reports the task error `err`, as far as it is fixed.
pub open spec fn reports_text(t: Seq<char>, err: TaskError) -> bool {
    match err {
        TaskError::Message(m) => t == m,
        TaskError::BadQuotedValue => exists|d: Seq<char>| t == "invalid quoted value: "@ + d,
        TaskError::BadEncodedDestination => exists|d: Seq<char>| t == "invalid encoded destination: "@ + d,
    }
}

/// The message of a frequency that is no positive number of minutes.
pub const FREQUENCY_MESSAGE: &'static str = "frequency must be a positive number of minutes, or use m, h, or d";

pub open spec fn is_digit(c: char) -> bool {
    '0' <= c && c <= '9'
}

/// The value of a string of decimal digits.
pub open spec fn digits_value(s: Seq<char>) -> nat
    decreases s.len(),
{
    if s.len() == 0 {
        0
    } else {
        digits_value(s.drop_last()) * 10 + ((s.last() as u32) - 48) as nat
    }
}

/// Every character of `s` is a decimal digit.
pub open spec fn all_digits(s: Seq<char>) -> bool {
    forall|i: int| 0 <= i < s.len() ==> is_digit(#[trigger] s[i])
}

/// `s` without a leading `+`.
pub open spec fn unsigned_body(s: Seq<char>) -> Seq<char> {
    if s.len() > 0 && s[0] == '+' {
        s.drop_first()
    } else {
        s
    }
}

/// What `u64::from_str` reads: an optional `+`, then one or more digits,
/// no more than `u64::MAX`.
pub open spec fn spec_parse_u64(s: Seq<char>) -> Option<nat> {
    let body = unsigned_body(s);
    if body.len() > 0 && all_digits(body) && digits_value(body) <= u64::MAX {
        Some(digits_value(body))
    } else {
        None
    }
}

/// A frequency in minutes: a number with an optional unit `m`, `h` or `d`,
/// positive and within `u64`.
pub open spec fn spec_parse_frequency(v: Seq<char>) -> Option<nat> {
    let (number, multiplier) = if v.len() > 0 && v.last() == 'm' {
        (v.drop_last(), 1nat)
    } else if v.len() > 0 && v.last() == 'h' {
        (v.drop_last(), 60nat)
    } else if v.len() > 0 && v.last() == 'd' {
        (v.drop_last(), 1440nat)
    } else {
        (v, 1nat)
    };
    match spec_parse_u64(trim(number)) {
        Some(n) => if n * multiplier <= u64::MAX && n * multiplier > 0 {
            Some(n * multiplier)
        } else {
            None
        },
        None => None,
    }
}

/// A longer run of digits is worth at least as much as its prefix.
proof fn lemma_digits_prefix_grows(s: Seq<char>, k: int)
    requires
        0 <= k <= s.len(),
        forall|i: int| 0 <= i < s.len() ==> is_digit(#[trigger] s[i]),
    ensures
        digits_value(s) >= digits_value(s.take(k)),
    decreases s.len() - k,
{
    if k < s.len() {
        lemma_digits_prefix_grows(s, k + 1);
        assert(s.take(k + 1).drop_last() =~= s.take(k));
        assert(is_digit(s.take(k + 1).last()));
    } else {
        assert(s.take(k) =~= s);
    }
}

/// Reads an unsigned decimal number as `u64::from_str` does.
pub fn parse_u64(s: &Vec<char>) -> (r: Option<u64>)
    ensures
        match spec_parse_u64(s@) {
            Some(n) => r == Some(n as u64),
            None => r is None,
        },
{
    let start: usize = if s.len() > 0 && s[0] == '+' {
        1
    } else {
        0
    };
    let ghost body = s@.skip(start as int);
    assert(body =~= unsigned_body(s@));
    if start >= s.len() {
        return None;
    }
    let mut value: u64 = 0;
    let mut i: usize = start;
    assert(s@.subrange(start as int, start as int) =~= Seq::<char>::empty());
    while i < s.len()
        invariant
            start <= i <= s.len(),
            start < s.len(),
            body == s@.skip(start as int),
            body == unsigned_body(s@),
            forall|k: int| start <= k < i ==> is_digit(#[trigger] s@[k]),
            value as nat == digits_value(s@.subrange(start as int, i as int)),
        decreases s.len() - i,
    {
        let c = s[i];
        if !('0' <= c && c <= '9') {
            assert(body[i - start] == c);
            assert(!is_digit(body[i - start]));
            assert(!all_digits(body));
            return None;
        }
        let d: u64 = ((c as u32) - 48) as u64;
        let ghost next = s@.subrange(start as int, i + 1);
        assert(next.drop_last() =~= s@.subrange(start as int, i as int));
        assert(next.last() == c);
        if value > (u64::MAX - d) / 10 {
            proof {
                assert(digits_value(next) > u64::MAX) by (nonlinear_arith)
                    requires
                        value > (u64::MAX - d) / 10,
                        digits_value(next) == value * 10 + d,
                        d <= 9,
                ;
                if all_digits(body) {
                    lemma_digits_prefix_grows(body, i + 1 - start);
                    assert(body.take(i + 1 - start) =~= next);
                }
            }
            return None;
        }
        value = value * 10 + d;
        i = i + 1;
    }
    assert(s@.subrange(start as int, s.len() as int) =~= body);
    Some(value)
}

/// Reads a task's frequency: a positive number of minutes, optionally
/// followed by `m`, `h` or `d`.
pub fn parse_frequency(value: &str) -> (r: Result<u64, String>)
    ensures
        match spec_parse_frequency(value@) {
            Some(n) => r == Ok::<u64, String>(n as u64),
            None => r matches Err(m) && m@ == FREQUENCY_MESSAGE@,
        },
{
    let v = chars_of(value);
    let n = v.len();
    let (end, multiplier): (usize, u64) = if n > 0 && v[n - 1] == 'm' {
        (n - 1, 1)
    } else if n > 0 && v[n - 1] == 'h' {
        (n - 1, 60)
    } else if n > 0 && v[n - 1] == 'd' {
        (n - 1, 1440)
    } else {
        (n, 1)
    };
    let number = trim_chars(&chars_range(&v, 0, end));
    proof {
        if end < n {
            assert(v@.subrange(0, end as int) =~= v@.drop_last());
        } else {
            assert(v@.subrange(0, end as int) =~= v@);
        }
    }
    match parse_u64(&number) {
        Some(x) => match x.checked_mul(multiplier) {
            Some(minutes) => if minutes > 0 {
                Ok(minutes)
            } else {
                Err(String::from_str(FREQUENCY_MESSAGE))
            },
            None => Err(String::from_str(FREQUENCY_MESSAGE)),
        },
        None => Err(String::from_str(FREQUENCY_MESSAGE)),
    }
}

/// A schedule interval in milliseconds, or why it cannot be one.
pub open spec fn spec_interval_ms(minutes: nat) -> Result<int, Seq<char>> {
    if minutes * 60000 > u64::MAX || minutes == 0 {
        Err("schedule interval must be positive"@)
    } else if minutes * 60000 > i64::MAX {
        Err("schedule interval is too large"@)
    } else {
        Ok((minutes * 60000) as int)
    }
}

/// The interval of `minutes` in milliseconds, as a positive `i64`.
pub fn interval_ms(minutes: u64) -> (r: Result<i64, String>)
    ensures
        match spec_interval_ms(minutes as nat) {
            Ok(ms) => r matches Ok(x) && x == ms,
            Err(m) => r matches Err(e) && e@ == m,
        },
{
    match minutes.checked_mul(60_000) {
        Some(ms) => if ms == 0 {
            Err(String::from_str("schedule interval must be positive"))
        } else if ms > 0x7fff_ffff_ffff_ffff {
            Err(String::from_str("schedule interval is too large"))
        } else {
            Ok(ms as i64)
        },
        None => Err(String::from_str("schedule interval must be positive")),
    }
}

/// Why a task cannot be stored, if it cannot: a blank title or prompt, or
/// an interval that is no positive `i64` of milliseconds.
pub open spec fn spec_validate_task(t: TaskEditView) -> Option<Seq<char>> {
    if trim(t.title).len() == 0 {
        Some("scheduled task title is required"@)
    } else if trim(t.prompt).len() == 0 {
        Some("scheduled task prompt is required"@)
    } else {
        match spec_interval_ms(t.interval_minutes) {
            Err(m) => Some(m),
            Ok(_) => None,
        }
    }
}

/// Checks that a task can be stored.
pub fn validate_task(task: &ScheduledTaskEdit) -> (r: Result<(), String>)
    ensures
        r is Ok <==> spec_validate_task(task@) is None,
        r matches Err(m) ==> spec_validate_task(task@) == Some(m@),
{
    let title = trim_chars(&chars_of(task.title.as_str()));
    if title.len() == 0 {
        return Err(String::from_str("scheduled task title is required"));
    }
    let prompt = trim_chars(&chars_of(task.prompt.as_str()));
    if prompt.len() == 0 {
        return Err(String::from_str("scheduled task prompt is required"));
    }
    match interval_ms(task.interval_minutes) {
        Ok(_) => Ok(()),
        Err(m) => Err(m),
    }
}

/// `'` doubled inside a single-quoted scalar stands for one `'`.
pub open spec fn single_quoted(s: Seq<char>) -> Seq<char>
    decreases s.len(),
{
    if s.len() >= 2 && s[0] == '\'' && s[1] == '\'' {
        seq!['\''] + single_quoted(s.skip(2))
    } else if s.len() > 0 {
        seq![s[0]] + single_quoted(s.drop_first())
    } else {
        seq![]
    }
}

/// A frontmatter value: the JSON string when it starts with `"`, the
/// single-quoted scalar when it starts with `'`, else the trimmed text.
pub open spec fn spec_yaml_scalar(v: Seq<char>) -> Result<Seq<char>, TaskError> {
    if v.len() > 0 && v[0] == '"' {
        match json_string_value(v) {
            Some(x) => Ok(x),
            None => Err(TaskError::BadQuotedValue),
        }
    } else if v.len() > 0 && v[0] == '\'' {
        let rest = v.drop_first();
        if rest.len() > 0 && rest.last() == '\'' {
            Ok(single_quoted(rest.drop_last()))
        } else {
            Err(TaskError::Message("unterminated quoted value"@))
        }
    } else {
        Ok(trim(v))
    }
}

/// The text of a single-quoted scalar between `a` and `b`, with each `''`
/// read as `'`.
fn unquote(v: &Vec<char>, a: usize, b: usize) -> (r: Vec<char>)
    requires
        a <= b <= v.len(),
    ensures
        r@ == single_quoted(v@.subrange(a as int, b as int)),
{
    let mut out: Vec<char> = Vec::new();
    let mut i: usize = a;
    while i < b
        invariant
            a <= i <= b <= v.len(),
            out@ + single_quoted(v@.subrange(i as int, b as int)) == single_quoted(v@.subrange(a as int, b as int)),
        decreases b - i,
    {
        let ghost u = v@.subrange(i as int, b as int);
        let ghost before = out@;
        if i + 1 < b && v[i] == '\'' && v[i + 1] == '\'' {
            assert(u[0] == v@[i as int] && u[1] == v@[i + 1]);
            assert(u.skip(2) =~= v@.subrange(i + 2, b as int));
            out.push('\'');
            assert(out@ + single_quoted(u.skip(2)) =~= before + (seq!['\''] + single_quoted(u.skip(2))));
            i = i + 2;
        } else {
            assert(u[0] == v@[i as int]);
            assert(u.drop_first() =~= v@.subrange(i + 1, b as int));
            out.push(v[i]);
            assert(out@ + single_quoted(u.drop_first()) =~= before + (seq![u[0]] + single_quoted(u.drop_first())));
            i = i + 1;
        }
    }
    assert(v@.subrange(b as int, b as int) =~= Seq::<char>::empty());
    assert(out@ + Seq::<char>::empty() =~= out@);
    out
}

/// Reads a frontmatter value: a JSON string, a single-quoted scalar, or
/// plain text.
pub fn parse_yaml_scalar(value: &str) -> (r: Result<String, String>)
    ensures
        match spec_yaml_scalar(value@) {
            Ok(x) => r matches Ok(s) && s@ == x,
            Err(e) => r matches Err(m) && reports(m, e),
        },
{
    let v = chars_of(value);
    let n = v.len();
    if n > 0 && v[0] == '"' {
        match json_string_from(value) {
            Ok(text) => Ok(text),
            Err(e) => {
                let detail = describe_json_error(&e);
                let mut message = String::from_str("invalid quoted value: ");
                append_str(&mut message, detail.as_str());
                Err(message)
            },
        }
    } else if n > 0 && v[0] == '\'' {
        if n >= 2 && v[n - 1] == '\'' {
            let inner = unquote(&v, 1, n - 1);
            assert(v@.drop_first().drop_last() =~= v@.subrange(1, n - 1));
            Ok(string_of(inner.as_slice()))
        } else {
            Err(String::from_str("unterminated quoted value"))
        }
    } else {
        Ok(string_of(trim_chars(&v).as_slice()))
    }
}

/// A destination written in a task file: decoded when it is `base64:`
/// followed by the encoding of a UTF-8 path, else as written. A decoded
/// path that is no UTF-8 is refused, since paths are held as text.
pub open spec fn spec_frontmatter_path(v: Seq<char>) -> Result<Seq<char>, TaskError> {
    let prefix = "base64:"@;
    if prefix.len() <= v.len() && v.take(prefix.len() as int) == prefix {
        match base64_decoded(v.skip(prefix.len() as int)) {
            None => Err(TaskError::BadEncodedDestination),
            Some(bytes) => match utf8_text(bytes) {
                Some(t) => Ok(t),
                None => Err(TaskError::Message("invalid encoded destination: the path is not UTF-8"@)),
            },
        }
    } else {
        Ok(v)
    }
}

/// Reads the destination written in a task file.
pub fn parse_frontmatter_path(value: &str) -> (r: Result<String, String>)
    ensures
        match spec_frontmatter_path(value@) {
            Ok(x) => r matches Ok(s) && s@ == x,
            Err(e) => r matches Err(m) && reports(m, e),
        },
{
    let v = chars_of(value);
    let prefix = chars_of("base64:");
    if !starts_with_chars(&v, &prefix) {
        return Ok(String::from_str(value));
    }
    let encoded = string_of(chars_range(&v, prefix.len(), v.len()).as_slice());
    assert(v@.subrange(prefix@.len() as int, v@.len() as int) =~= v@.skip(prefix@.len() as int));
    match base64_decode(encoded.as_str()) {
        Err(e) => {
            let detail = describe_decode_error(&e);
            let mut message = String::from_str("invalid encoded destination: ");
            append_str(&mut message, detail.as_str());
            Err(message)
        },
        Ok(bytes) => match decode_utf8(bytes.as_slice()) {
            Some(path) => Ok(path),
            None => Err(String::from_str("invalid encoded destination: the path is not UTF-8")),
        },
    }
}

pub open spec fn is_line_end(c: char) -> bool {
    c == '\r' || c == '\n'
}

/// `s` without trailing `\r` and `\n`.
pub open spec fn strip_line_end(s: Seq<char>) -> Seq<char>
    decreases s.len(),
{
    if s.len() > 0 && is_line_end(s.last()) {
        strip_line_end(s.drop_last())
    } else {
        s
    }
}

/// `s` without leading `\r` and `\n`.
pub open spec fn strip_line_start(s: Seq<char>) -> Seq<char>
    decreases s.len(),
{
    if s.len() > 0 && is_line_end(s[0]) {
        strip_line_start(s.drop_first())
    } else {
        s
    }
}

/// The index after the line that starts at `pos`: after its `\n`, or the end.
pub open spec fn line_after(s: Seq<char>, pos: int) -> int {
    let e = pos + crate::client::newline_index(s.skip(pos));
    if e < s.len() {
        e + 1
    } else {
        s.len() as int
    }
}

/// The index of the first `:` of `s`, or its length.
pub open spec fn colon_index(s: Seq<char>) -> int
    decreases s.len(),
{
    if s.len() == 0 {
        0
    } else if s[0] == ':' {
        0
    } else {
        1 + colon_index(s.drop_first())
    }
}

proof fn lemma_colon_index(s: Seq<char>, i: int)
    requires
        0 <= i <= s.len(),
        forall|k: int| 0 <= k < i ==> #[trigger] s[k] != ':',
        i == s.len() || s[i] == ':',
    ensures
        colon_index(s) == i,
    decreases i,
{
    if i > 0 {
        assert forall|k: int| 0 <= k < i - 1 implies #[trigger] s.drop_first()[k] != ':' by {
            assert(s.drop_first()[k] == s[k + 1]);
        }
        lemma_colon_index(s.drop_first(), i - 1);
    }
}

/// The index just after the line that starts at `pos`.
fn line_end(s: &Vec<char>, pos: usize) -> (r: usize)
    requires
        pos < s.len(),
    ensures
        r == line_after(s@, pos as int),
        pos < r <= s.len(),
{
    let mut i: usize = pos;
    while i < s.len() && s[i] != '\n'
        invariant
            pos <= i <= s.len(),
            forall|k: int| pos <= k < i ==> s@[k] != '\n',
        decreases s.len() - i,
    {
        i = i + 1;
    }
    proof {
        let t = s@.skip(pos as int);
        assert forall|k: int| 0 <= k < i - pos implies #[trigger] t[k] != '\n' by {
            assert(t[k] == s@[pos + k]);
        }
        if i < s.len() {
            assert(t[i - pos] == s@[i as int]);
        }
        crate::client::lemma_newline_index(t, i - pos);
    }
    if i < s.len() {
        i + 1
    } else {
        i
    }
}

/// The characters from `a` to `b` without trailing line ends.
fn line_text(s: &Vec<char>, a: usize, b: usize) -> (r: Vec<char>)
    requires
        a <= b <= s.len(),
    ensures
        r@ == strip_line_end(s@.subrange(a as int, b as int)),
{
    let mut e: usize = b;
    while e > a && (s[e - 1] == '\r' || s[e - 1] == '\n')
        invariant
            a <= e <= b <= s.len(),
            strip_line_end(s@.subrange(a as int, b as int)) == strip_line_end(s@.subrange(a as int, e as int)),
        decreases e - a,
    {
        proof {
            let u = s@.subrange(a as int, e as int);
            assert(u.drop_last() =~= s@.subrange(a as int, e - 1));
            assert(u.last() == s@[e - 1]);
        }
        e = e - 1;
    }
    proof {
        let u = s@.subrange(a as int, e as int);
        if u.len() > 0 {
            assert(u.last() == s@[e - 1]);
        }
    }
    chars_range(s, a, e)
}

/// The prompt after the frontmatter, without leading and trailing line ends.
pub open spec fn prompt_after(s: Seq<char>, offset: int) -> Seq<char> {
    strip_line_end(strip_line_start(s.skip(offset)))
}

fn prompt_text(s: &Vec<char>, offset: usize) -> (r: Vec<char>)
    requires
        offset <= s.len(),
    ensures
        r@ == prompt_after(s@, offset as int),
{
    let mut a: usize = offset;
    while a < s.len() && (s[a] == '\r' || s[a] == '\n')
        invariant
            offset <= a <= s.len(),
            strip_line_start(s@.skip(offset as int)) == strip_line_start(s@.skip(a as int)),
        decreases s.len() - a,
    {
        proof {
            assert(s@.skip(a as int).drop_first() =~= s@.skip(a + 1));
            assert(s@.skip(a as int)[0] == s@[a as int]);
        }
        a = a + 1;
    }
    proof {
        if a < s.len() {
            assert(s@.skip(a as int)[0] == s@[a as int]);
        }
        assert(s@.skip(a as int) =~= s@.subrange(a as int, s.len() as int));
    }
    line_text(s, a, s.len())
}

/// The index of the first `:` of `t`, or its length.
fn colon_position(t: &Vec<char>) -> (r: usize)
    ensures
        r == colon_index(t@),
        r <= t.len(),
{
    let mut i: usize = 0;
    while i < t.len() && t[i] != ':'
        invariant
            i <= t.len(),
            forall|k: int| 0 <= k < i ==> t@[k] != ':',
        decreases t.len() - i,
    {
        i = i + 1;
    }
    proof {
        lemma_colon_index(t@, i as int);
    }
    i
}

/// Whether the characters of `v` spell `text`.
fn chars_are(v: &Vec<char>, text: &str) -> (r: bool)
    ensures
        r == (v@ == text@),
{
    let s = string_of(v.as_slice());
    str_eq(s.as_str(), text)
}

/// The fields a task file may set; a project task file sets fewer.
pub open spec fn known_field(key: Seq<char>, project: bool) -> bool {
    if project {
        key == "id"@ || key == "frequency"@ || key == "title"@ || key == "description"@ || key == "model"@
    } else {
        ||| key == "status"@
        ||| key == "frequency"@
        ||| key == "title"@
        ||| key == "description"@
        ||| key == "model"@
        ||| key == "discord_webhook"@
        ||| key == "destination"@
        ||| key == "repository"@
        ||| key == "branch"@
    }
}

fn is_known_field(key: &str, project: bool) -> (r: bool)
    ensures
        r == known_field(key@, project),
{
    if project {
        str_eq(key, "id") || str_eq(key, "frequency") || str_eq(key, "title") || str_eq(key, "description")
            || str_eq(key, "model")
    } else {
        str_eq(key, "status") || str_eq(key, "frequency") || str_eq(key, "title") || str_eq(key, "description")
            || str_eq(key, "model") || str_eq(key, "discord_webhook") || str_eq(key, "destination")
            || str_eq(key, "repository") || str_eq(key, "branch")
    }
}

/// `prefix`, then `key`, then a closing backquote.
pub open spec fn quoted_message(prefix: Seq<char>, key: Seq<char>) -> Seq<char> {
    prefix + key + "`"@
}

fn quoted_error(prefix: &str, key: &str) -> (r: String)
    ensures
        r@ == quoted_message(prefix@, key@),
{
    let mut message = String::from_str(prefix);
    append_str(&mut message, key);
    append_str(&mut message, "`");
    message
}

pub open spec fn unknown_field_message(key: Seq<char>, project: bool) -> Seq<char> {
    if project {
        quoted_message("unknown project task field `"@, key)
    } else {
        quoted_message("unknown frontmatter field `"@, key)
    }
}

/// The values of a table of strings, as text.
pub open spec fn field_views(m: Map<Seq<char>, String>) -> Map<Seq<char>, Seq<char>> {
    m.map_values(|v: String| v@)
}

/// Reads the frontmatter lines from `pos` up to the closing `---`: the
/// fields and the index after the closing line.
pub open spec fn scan_fields(s: Seq<char>, pos: int, fields: Map<Seq<char>, Seq<char>>, project: bool) -> Result<
    (Map<Seq<char>, Seq<char>>, int),
    TaskError,
>
    decreases s.len() - pos,
{
    let next = line_after(s, pos);
    if pos < 0 || pos >= s.len() || next <= pos || next > s.len() {
        Err(TaskError::Message("YAML frontmatter is not closed with `---`"@))
    } else {
        let line = strip_line_end(s.subrange(pos, next));
        if line == "---"@ {
            Ok((fields, next))
        } else {
            let t = trim(line);
            if t.len() == 0 || t[0] == '#' {
                scan_fields(s, next, fields, project)
            } else {
                let c = colon_index(t);
                if c < 0 || c >= t.len() {
                    Err(TaskError::Message(quoted_message("invalid frontmatter line `"@, t)))
                } else {
                    let key = trim(t.take(c));
                    if !known_field(key, project) {
                        Err(TaskError::Message(unknown_field_message(key, project)))
                    } else {
                        match spec_yaml_scalar(trim(t.skip(c + 1))) {
                            Err(e) => Err(e),
                            Ok(v) => if fields.dom().contains(key) {
                                Err(TaskError::Message(quoted_message("duplicate frontmatter field `"@, key)))
                            } else {
                                scan_fields(s, next, fields.insert(key, v), project)
                            },
                        }
                    }
                }
            }
        }
    }
}

/// The frontmatter of a task file's text: its fields and the index where
/// the prompt starts.
pub open spec fn spec_frontmatter(s: Seq<char>, project: bool) -> Result<(Map<Seq<char>, Seq<char>>, int), TaskError> {
    if s.len() == 0 {
        Err(TaskError::Message("missing YAML frontmatter"@))
    } else {
        let next = line_after(s, 0);
        if strip_line_end(s.take(next)) != "---"@ {
            Err(TaskError::Message("task file must start with YAML frontmatter"@))
        } else {
            scan_fields(s, next, Map::empty(), project)
        }
    }
}

/// Reads the frontmatter of a task file's characters.
fn scan_frontmatter(s: &Vec<char>, project: bool) -> (r: Result<(TextTable<String>, usize), String>)
    ensures
        match spec_frontmatter(s@, project) {
            Ok((fields, offset)) => r matches Ok((t, o)) && t.wf() && field_views(t@) == fields && o == offset,
            Err(e) => r matches Err(m) && reports(m, e),
        },
        r matches Ok((_, o)) ==> o <= s@.len(),
{
    if s.len() == 0 {
        return Err(String::from_str("missing YAML frontmatter"));
    }
    let first_end = line_end(s, 0);
    let first = line_text(s, 0, first_end);
    assert(s@.subrange(0, first_end as int) =~= s@.take(first_end as int));
    if !chars_are(&first, "---") {
        return Err(String::from_str("task file must start with YAML frontmatter"));
    }
    let mut fields: TextTable<String> = TextTable::new();
    assert(field_views(fields@) =~= Map::<Seq<char>, Seq<char>>::empty());
    let mut pos: usize = first_end;
    while pos < s.len()
        invariant
            pos <= s.len(),
            fields.wf(),
            spec_frontmatter(s@, project) == scan_fields(s@, pos as int, field_views(fields@), project),
        decreases s.len() - pos,
    {
        let next = line_end(s, pos);
        let line = line_text(s, pos, next);
        if chars_are(&line, "---") {
            return Ok((fields, next));
        }
        let t = trim_chars(&line);
        if t.len() == 0 || t[0] == '#' {
            pos = next;
        } else {
            let c = colon_position(&t);
            if c >= t.len() {
                let shown = string_of(t.as_slice());
                return Err(quoted_error("invalid frontmatter line `", shown.as_str()));
            }
            let key = string_of(trim_chars(&chars_range(&t, 0, c)).as_slice());
            assert(t@.subrange(0, c as int) =~= t@.take(c as int));
            if !is_known_field(key.as_str(), project) {
                if project {
                    return Err(quoted_error("unknown project task field `", key.as_str()));
                } else {
                    return Err(quoted_error("unknown frontmatter field `", key.as_str()));
                }
            }
            let raw = string_of(trim_chars(&chars_range(&t, c + 1, t.len())).as_slice());
            assert(t@.subrange(c + 1, t@.len() as int) =~= t@.skip(c + 1));
            let value = match parse_yaml_scalar(raw.as_str()) {
                Ok(v) => v,
                Err(m) => {
                    return Err(m);
                },
            };
            if fields.contains_key(key.as_str()) {
                return Err(quoted_error("duplicate frontmatter field `", key.as_str()));
            }
            let ghost before = fields@;
            let ghost key_view = key@;
            let ghost value_view = value@;
            fields.insert(key, value);
            assert(field_views(fields@) =~= field_views(before).insert(key_view, value_view));
            pos = next;
        }
    }
    Err(String::from_str("YAML frontmatter is not closed with `---`"))
}

pub open spec fn missing_message(key: Seq<char>) -> Seq<char> {
    quoted_message("missing frontmatter field `"@, key)
}

/// A field of the frontmatter, else the fallback, if any.
pub open spec fn field_or(fields: Map<Seq<char>, Seq<char>>, key: Seq<char>, fallback: Option<Seq<char>>) -> Option<Seq<char>> {
    if fields.dom().contains(key) {
        Some(fields[key])
    } else {
        fallback
    }
}

/// A field of the frontmatter, else empty text.
pub open spec fn field_or_empty(fields: Map<Seq<char>, Seq<char>>, key: Seq<char>) -> Seq<char> {
    if fields.dom().contains(key) {
        fields[key]
    } else {
        seq![]
    }
}

/// A task file's fields: the required ones must be there; the destination,
/// repository and branch may come from `default`.
pub open spec fn spec_task_fields(
    s: Seq<char>,
    fields: Map<Seq<char>, Seq<char>>,
    offset: int,
    default: Option<(Seq<char>, Seq<char>, Seq<char>)>,
) -> Result<TaskEditView, TaskError> {
    let destination = if fields.dom().contains("destination"@) {
        spec_frontmatter_path(fields["destination"@])
    } else {
        match default {
            Some(d) => Ok(d.0),
            None => Err(TaskError::Message(missing_message("destination"@))),
        }
    };
    let repository = field_or(fields, "repository"@, match default { Some(d) => Some(d.1), None => None });
    let branch = field_or(fields, "branch"@, match default { Some(d) => Some(d.2), None => None });
    match destination {
        Err(e) => Err(e),
        Ok(destination) => if repository is None {
            Err(TaskError::Message(missing_message("repository"@)))
        } else if branch is None {
            Err(TaskError::Message(missing_message("branch"@)))
        } else if !fields.dom().contains("status"@) {
            Err(TaskError::Message(missing_message("status"@)))
        } else if fields["status"@] != "enabled"@ && fields["status"@] != "disabled"@ {
            Err(TaskError::Message("status must be `enabled` or `disabled`"@))
        } else if !fields.dom().contains("frequency"@) {
            Err(TaskError::Message(missing_message("frequency"@)))
        } else if spec_parse_frequency(fields["frequency"@]) is None {
            Err(TaskError::Message(FREQUENCY_MESSAGE@))
        } else if !fields.dom().contains("title"@) {
            Err(TaskError::Message(missing_message("title"@)))
        } else if !fields.dom().contains("description"@) {
            Err(TaskError::Message(missing_message("description"@)))
        } else {
            Ok(
                TaskEditView {
                    title: fields["title"@],
                    description: fields["description"@],
                    prompt: prompt_after(s, offset),
                    model: field_or_empty(fields, "model"@),
                    discord_webhook_id: field_or_empty(fields, "discord_webhook"@),
                    destination,
                    repository: repository.unwrap(),
                    branch: branch.unwrap(),
                    enabled: fields["status"@] == "enabled"@,
                    interval_minutes: spec_parse_frequency(fields["frequency"@]).unwrap(),
                },
            )
        },
    }
}

/// What a task file's bytes define, before its destination is resolved
/// and the task is checked.
pub open spec fn spec_task_text(content: Seq<u8>, default: Option<(Seq<char>, Seq<char>, Seq<char>)>) -> Result<
    TaskEditView,
    TaskError,
> {
    match utf8_text(content) {
        None => Err(TaskError::Message("task file must be UTF-8"@)),
        Some(s) => match spec_frontmatter(s, false) {
            Err(e) => Err(e),
            Ok((fields, offset)) => spec_task_fields(s, fields, offset, default),
        },
    }
}

/// A required field's text, or the error that it is missing.
fn required_field(fields: &TextTable<String>, key: &str) -> (r: Result<String, String>)
    requires
        fields.wf(),
    ensures
        fields@.dom().contains(key@) ==> (r matches Ok(v) && v@ == fields@[key@]@),
        !fields@.dom().contains(key@) ==> (r matches Err(m) && m@ == missing_message(key@)),
{
    match fields.get(key) {
        Some(v) => Ok(v.clone()),
        None => Err(quoted_error("missing frontmatter field `", key)),
    }
}

/// An optional field's text, or empty text.
fn optional_field(fields: &TextTable<String>, key: &str) -> (r: String)
    requires
        fields.wf(),
    ensures
        r@ == field_or_empty(field_views(fields@), key@),
{
    match fields.get(key) {
        Some(v) => v.clone(),
        None => String::new(),
    }
}

/// Reads a task file's bytes: the task it defines, with the destination as
/// written (or `default`'s) and not yet checked.
pub fn parse_task_text(content: &[u8], default: Option<&ScheduledTaskDestination>) -> (r: Result<ScheduledTaskEdit, String>)
    ensures
        match spec_task_text(content@, match default { Some(d) => Some(d@), None => None }) {
            Ok(v) => r matches Ok(e) && e@ == v,
            Err(err) => r matches Err(m) && reports(m, err),
        },
{
    let text = match decode_utf8(content) {
        Some(t) => t,
        None => {
            return Err(String::from_str("task file must be UTF-8"));
        },
    };
    let s = chars_of(text.as_str());
    let (fields, offset) = match scan_frontmatter(&s, false) {
        Ok(found) => found,
        Err(m) => {
            return Err(m);
        },
    };
    let ghost fv = field_views(fields@);
    let destination = match fields.get("destination") {
        Some(d) => match parse_frontmatter_path(d.as_str()) {
            Ok(p) => p,
            Err(m) => {
                return Err(m);
            },
        },
        None => match default {
            Some(d) => d.path.clone(),
            None => {
                return Err(quoted_error("missing frontmatter field `", "destination"));
            },
        },
    };
    let repository = match fields.get("repository") {
        Some(v) => v.clone(),
        None => match default {
            Some(d) => d.repository.clone(),
            None => {
                return Err(quoted_error("missing frontmatter field `", "repository"));
            },
        },
    };
    let branch = match fields.get("branch") {
        Some(v) => v.clone(),
        None => match default {
            Some(d) => d.branch.clone(),
            None => {
                return Err(quoted_error("missing frontmatter field `", "branch"));
            },
        },
    };
    let status = match required_field(&fields, "status") {
        Ok(v) => v,
        Err(m) => {
            return Err(m);
        },
    };
    let enabled = if str_eq(status.as_str(), "enabled") {
        true
    } else if str_eq(status.as_str(), "disabled") {
        false
    } else {
        return Err(String::from_str("status must be `enabled` or `disabled`"));
    };
    let frequency = match required_field(&fields, "frequency") {
        Ok(v) => v,
        Err(m) => {
            return Err(m);
        },
    };
    let interval_minutes = match parse_frequency(frequency.as_str()) {
        Ok(n) => n,
        Err(m) => {
            return Err(m);
        },
    };
    let title = match required_field(&fields, "title") {
        Ok(v) => v,
        Err(m) => {
            return Err(m);
        },
    };
    let description = match required_field(&fields, "description") {
        Ok(v) => v,
        Err(m) => {
            return Err(m);
        },
    };
    let model = optional_field(&fields, "model");
    let discord_webhook_id = optional_field(&fields, "discord_webhook");
    let prompt = string_of(prompt_text(&s, offset).as_slice());
    Ok(
        ScheduledTaskEdit {
            title,
            description,
            prompt,
            model,
            discord_webhook_id,
            destination,
            repository,
            branch,
            enabled,
            interval_minutes,
        },
    )
}

/// A parsed task once its destination was resolved: the resolver's error,
/// or the task with the resolved destination if it passes `validate_task`.
pub open spec fn resolved_task(v: TaskEditView, resolved: Result<String, String>) -> Result<TaskEditView, Seq<char>> {
    match resolved {
        Err(m) => Err(m@),
        Ok(d) => {
            let t = TaskEditView { destination: d@, ..v };
            match spec_validate_task(t) {
                Some(m) => Err(m),
                None => Ok(t),
            }
        },
    }
}

/// `r` is the outcome `expected`, by value.
pub open spec fn task_result_is(r: Result<ScheduledTaskEdit, String>, expected: Result<TaskEditView, Seq<char>>) -> bool {
    match expected {
        Ok(v) => r matches Ok(e) && e@ == v,
        Err(m) => r matches Err(e) && e@ == m,
    }
}

/// Reads a task file: its task, with the destination that `resolve` makes
/// of the one written (or `default`'s), checked by `validate_task`.
pub fn parse_task_file<F: Fn(&String) -> Result<String, String>>(
    content: &[u8],
    default: Option<&ScheduledTaskDestination>,
    resolve: &F,
) -> (r: Result<ScheduledTaskEdit, String>)
    requires
        forall|p: &String| #[trigger] resolve.requires((p,)),
    ensures
        match spec_task_text(content@, match default { Some(d) => Some(d@), None => None }) {
            Err(err) => r matches Err(m) && reports(m, err),
            Ok(v) => exists|p: &String, res: Result<String, String>|
                p@ == v.destination && #[trigger] resolve.ensures((p,), res) && task_result_is(r, resolved_task(v, res)),
        },
{
    let edit = match parse_task_text(content, default) {
        Ok(e) => e,
        Err(m) => {
            return Err(m);
        },
    };
    let resolved = resolve(&edit.destination);
    let ghost v = edit@;
    proof {
        let p = &edit.destination;
        assert(resolve.ensures((p,), resolved));
    }
    match resolved {
        Err(m) => Err(m),
        Ok(d) => {
            let mut task = edit;
            task.destination = d;
            assert(task@ == TaskEditView { destination: task.destination@, ..v });
            match validate_task(&task) {
                Ok(()) => Ok(task),
                Err(m) => Err(m),
            }
        },
    }
}

/// A project task: the file it came from, its bytes, the key it is stored
/// under, and the task it defines.
#[derive(Debug)]
pub struct ProjectTaskDefinition {
    pub key: String,
    pub source: String,
    pub content: Vec<u8>,
    pub edit: ScheduledTaskEdit,
}

/// A project task's key: letters, digits, `-`, `_` and `.`, at least one.
pub open spec fn valid_task_key(k: Seq<char>) -> bool {
    k.len() > 0 && forall|i: int|
        0 <= i < k.len() ==> crate::text::is_ascii_alphanumeric(#[trigger] k[i]) || k[i] == '-' || k[i] == '_'
            || k[i] == '.'
}

pub const TASK_KEY_MESSAGE: &'static str = "project task id may contain only letters, numbers, `-`, `_`, and `.`";

/// What a project task file defines, given the stem of its file name: its
/// key and its task, disabled and run at `destination`.
pub open spec fn spec_project_task(content: Seq<u8>, stem: Option<Seq<char>>, destination: (Seq<char>, Seq<char>, Seq<char>)) -> Result<
    (Seq<char>, TaskEditView),
    TaskError,
> {
    match utf8_text(content) {
        None => Err(TaskError::Message("task file must be UTF-8"@)),
        Some(s) => match spec_frontmatter(s, true) {
            Err(e) => Err(e),
            Ok((fields, offset)) => match stem {
                None => Err(TaskError::Message("project task filename must be UTF-8"@)),
                Some(stem) => {
                    let key = if fields.dom().contains("id"@) {
                        fields["id"@]
                    } else {
                        stem
                    };
                    if !valid_task_key(key) {
                        Err(TaskError::Message(TASK_KEY_MESSAGE@))
                    } else if !fields.dom().contains("title"@) {
                        Err(TaskError::Message(missing_message("title"@)))
                    } else if !fields.dom().contains("frequency"@) {
                        Err(TaskError::Message(missing_message("frequency"@)))
                    } else if spec_parse_frequency(fields["frequency"@]) is None {
                        Err(TaskError::Message(FREQUENCY_MESSAGE@))
                    } else {
                        let edit = TaskEditView {
                            title: fields["title"@],
                            description: field_or_empty(fields, "description"@),
                            prompt: prompt_after(s, offset),
                            model: field_or_empty(fields, "model"@),
                            discord_webhook_id: seq![],
                            destination: destination.0,
                            repository: destination.1,
                            branch: destination.2,
                            enabled: false,
                            interval_minutes: spec_parse_frequency(fields["frequency"@]).unwrap(),
                        };
                        match spec_validate_task(edit) {
                            Some(m) => Err(TaskError::Message(m)),
                            None => Ok((key, edit)),
                        }
                    }
                },
            },
        },
    }
}

fn is_valid_task_key(k: &str) -> (r: bool)
    ensures
        r == valid_task_key(k@),
{
    let v = chars_of(k);
    if v.len() == 0 {
        return false;
    }
    let mut i: usize = 0;
    while i < v.len()
        invariant
            i <= v.len(),
            v@ == k@,
            forall|j: int|
                0 <= j < i ==> crate::text::is_ascii_alphanumeric(#[trigger] v@[j]) || v@[j] == '-' || v@[j] == '_'
                    || v@[j] == '.',
        decreases v.len() - i,
    {
        let c = v[i];
        if !(crate::text::char_is_ascii_alphanumeric(c) || c == '-' || c == '_' || c == '.') {
            return false;
        }
        i = i + 1;
    }
    true
}

fn copy_bytes(b: &[u8]) -> (r: Vec<u8>)
    ensures
        r@ == b@,
{
    let mut out: Vec<u8> = Vec::new();
    let mut i: usize = 0;
    while i < b.len()
        invariant
            i <= b.len(),
            out@ == b@.take(i as int),
        decreases b.len() - i,
    {
        out.push(b[i]);
        assert(out@ =~= b@.take(i + 1));
        i = i + 1;
    }
    assert(b@.take(b@.len() as int) =~= b@);
    out
}

/// Reads a project task file found at `source` (a path in the repository):
/// its key is the `id` field, else the file name's stem.
pub fn parse_project_task(content: &[u8], source: &str, destination: &ScheduledTaskDestination) -> (r: Result<
    ProjectTaskDefinition,
    String,
>)
    ensures
        match spec_project_task(content@, path_file_stem(source@), destination@) {
            Ok((key, edit)) => r matches Ok(d) && d.key@ == key && d.source@ == source@ && d.content@ == content@
                && d.edit@ == edit,
            Err(err) => r matches Err(m) && reports(m, err),
        },
{
    let text = match decode_utf8(content) {
        Some(t) => t,
        None => {
            return Err(String::from_str("task file must be UTF-8"));
        },
    };
    let s = chars_of(text.as_str());
    let (fields, offset) = match scan_frontmatter(&s, true) {
        Ok(found) => found,
        Err(m) => {
            return Err(m);
        },
    };
    let stem = match file_stem_of(source) {
        Some(stem) => stem,
        None => {
            return Err(String::from_str("project task filename must be UTF-8"));
        },
    };
    let key = match fields.get("id") {
        Some(id) => id.clone(),
        None => stem,
    };
    if !is_valid_task_key(key.as_str()) {
        return Err(String::from_str(TASK_KEY_MESSAGE));
    }
    let title = match required_field(&fields, "title") {
        Ok(v) => v,
        Err(m) => {
            return Err(m);
        },
    };
    let frequency = match required_field(&fields, "frequency") {
        Ok(v) => v,
        Err(m) => {
            return Err(m);
        },
    };
    let interval_minutes = match parse_frequency(frequency.as_str()) {
        Ok(n) => n,
        Err(m) => {
            return Err(m);
        },
    };
    let edit = ScheduledTaskEdit {
        title,
        description: optional_field(&fields, "description"),
        prompt: string_of(prompt_text(&s, offset).as_slice()),
        model: optional_field(&fields, "model"),
        discord_webhook_id: String::new(),
        destination: destination.path.clone(),
        repository: destination.repository.clone(),
        branch: destination.branch.clone(),
        enabled: false,
        interval_minutes,
    };
    match validate_task(&edit) {
        Ok(()) => Ok(
            ProjectTaskDefinition { key, source: String::from_str(source), content: copy_bytes(content), edit },
        ),
        Err(m) => Err(m),
    }
}

} // verus!
