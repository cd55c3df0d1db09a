use vstd::prelude::*;
use vstd::utf8::{decode_utf8, valid_utf8};

use crate::collect::{collect_all, lemma_collect_all_ok, lemma_collect_prefix_err, lemma_collect_step, lemma_take_all};
use crate::json::{spec_as_str, spec_as_u64, spec_get, JsonValue};
use crate::json::text_eq;

verus! {

/// Whether `c` has the Unicode `White_Space` property, which is what
/// `char::is_whitespace` and `str::trim` go by.
pub open spec fn is_white_space(c: char) -> bool {
    ('\u{9}' <= c && c <= '\u{d}') || c == ' ' || c == '\u{85}' || c == '\u{a0}' || c == '\u{1680}'
        || ('\u{2000}' <= c && c <= '\u{200a}') || c == '\u{2028}' || c == '\u{2029}'
        || c == '\u{202f}' || c == '\u{205f}' || c == '\u{3000}'
}

/// `s` without its leading white space.
pub open spec fn trim_start(s: Seq<char>) -> Seq<char>
    decreases s.len(),
{
    if s.len() > 0 && is_white_space(s[0]) {
        trim_start(s.drop_first())
    } else {
        s
    }
}

/// `s` without its trailing white space.
pub open spec fn trim_end(s: Seq<char>) -> Seq<char>
    decreases s.len(),
{
    if s.len() > 0 && is_white_space(s.last()) {
        trim_end(s.drop_last())
    } else {
        s
    }
}

/// `s` without leading and trailing white space.
pub open spec fn trim(s: Seq<char>) -> Seq<char> {
    trim_end(trim_start(s))
}

/// `c` with ASCII upper case turned to lower case and `_` turned to `-`.
pub open spec fn normalize_char(c: char) -> char {
    if 'A' <= c && c <= 'Z' {
        (((c as u8) + 32) as u8) as char
    } else if c == '_' {
        '-'
    } else {
        c
    }
}

/// The form in which an encoding name is compared: trimmed, ASCII lower
/// case, `_` written as `-`.
pub open spec fn spec_normalize_encoding(s: Seq<char>) -> Seq<char> {
    trim(s).map_values(|c: char| normalize_char(c))
}

fn is_white_space_char(c: char) -> (r: bool)
    ensures
        r == is_white_space(c),
{
    ('\u{9}' <= c && c <= '\u{d}') || c == ' ' || c == '\u{85}' || c == '\u{a0}' || c == '\u{1680}'
        || ('\u{2000}' <= c && c <= '\u{200a}') || c == '\u{2028}' || c == '\u{2029}'
        || c == '\u{202f}' || c == '\u{205f}' || c == '\u{3000}'
}

fn normalize_one(c: char) -> (r: char)
    ensures
        r == normalize_char(c),
{
    if 'A' <= c && c <= 'Z' {
        let code = (c as u8) + 32;
        code as char
    } else if c == '_' {
        '-'
    } else {
        c
    }
}

/// `String::push`: appends one character.
#[verifier::external_body]
fn push_char(s: &mut String, c: char)
    ensures
        final(s)@ == old(s)@.push(c),
{
    s.push(c);
}

proof fn lemma_trim_start_skip(s: Seq<char>, i: int)
    requires
        0 <= i <= s.len(),
        forall|j: int| 0 <= j < i ==> is_white_space(s[j]),
    ensures
        trim_start(s) == trim_start(s.skip(i)),
    decreases i,
{
    if i > 0 {
        lemma_trim_start_skip(s, i - 1);
        assert(s.skip(i - 1).drop_first() =~= s.skip(i));
        assert(s.skip(i - 1)[0] == s[i - 1]);
    } else {
        assert(s.skip(0) =~= s);
    }
}

proof fn lemma_trim_end_take(s: Seq<char>, j: int)
    requires
        0 <= j <= s.len(),
        forall|k: int| j <= k < s.len() ==> is_white_space(s[k]),
    ensures
        trim_end(s) == trim_end(s.take(j)),
    decreases s.len() - j,
{
    if j < s.len() {
        lemma_trim_end_take(s, j + 1);
        assert(s.take(j + 1).drop_last() =~= s.take(j));
        assert(s.take(j + 1).last() == s[j]);
    } else {
        assert(s.take(j) =~= s);
    }
}

/// Trims an encoding name, turns ASCII upper case to lower case and `_` to
/// `-`; an absent name is empty.
pub fn normalize_encoding(encoding: Option<String>) -> (r: String)
    ensures
        r@ == match encoding {
            Some(e) => spec_normalize_encoding(e@),
            None => Seq::<char>::empty(),
        },
{
    let text = match encoding {
        Some(e) => e,
        None => String::new(),
    };
    let s = text.as_str();
    let ghost t = s@;
    let n = s.unicode_len();
    let mut lo: usize = 0;
    while lo < n && is_white_space_char(s.get_char(lo))
        invariant
            n == t.len(),
            s@ == t,
            lo <= n,
            forall|j: int| 0 <= j < lo ==> is_white_space(t[j]),
        decreases n - lo,
    {
        lo = lo + 1;
    }
    proof {
        lemma_trim_start_skip(t, lo as int);
        if lo < n {
            assert(t.skip(lo as int)[0] == t[lo as int]);
        }
    }
    let mut hi: usize = n;
    while hi > lo && is_white_space_char(s.get_char(hi - 1))
        invariant
            n == t.len(),
            s@ == t,
            lo <= hi <= n,
            forall|k: int| hi <= k < n ==> is_white_space(t[k]),
        decreases hi - lo,
    {
        hi = hi - 1;
    }
    let ghost u = t.skip(lo as int);
    proof {
        assert forall|k: int| hi - lo <= k < u.len() implies is_white_space(u[k]) by {
            assert(u[k] == t[lo + k]);
        }
        lemma_trim_end_take(u, hi - lo);
        assert(u.take(hi - lo) =~= t.subrange(lo as int, hi as int));
        if hi > lo {
            assert(u.take(hi - lo).last() == t[hi - 1]);
        }
        assert(trim(t) == t.subrange(lo as int, hi as int));
    }
    let mut out = String::new();
    let mut i = lo;
    while i < hi
        invariant
            n == t.len(),
            s@ == t,
            lo <= i <= hi <= n,
            out@ == t.subrange(lo as int, i as int).map_values(|c: char| normalize_char(c)),
        decreases hi - i,
    {
        let c = normalize_one(s.get_char(i));
        push_char(&mut out, c);
        proof {
            assert(t.subrange(lo as int, i + 1).map_values(|c: char| normalize_char(c))
                =~= t.subrange(lo as int, i as int).map_values(|c: char| normalize_char(c)).push(normalize_char(t[i as int])));
        }
        i = i + 1;
    }
    out
}

/// Whether a text is empty or all white space, as an absent optional
/// argument is written.
pub fn is_blank(text: &str) -> (r: bool)
    ensures
        r == (trim(text@).len() == 0),
{
    let normalized = normalize_encoding(Some(text.to_string()));
    normalized.as_str().unicode_len() == 0
}

/// The kinds of file-system error that the host tells apart.
pub enum FsErrorKind {
    NotFound,
    PermissionDenied,
    AlreadyExists,
    InvalidInput,
    InvalidData,
    TimedOut,
    Interrupted,
    WouldBlock,
    Other,
}

/// The errno-style code that scripts see for a kind of error.
pub open spec fn spec_error_code(kind: FsErrorKind) -> Seq<char> {
    match kind {
        FsErrorKind::NotFound => "ENOENT"@,
        FsErrorKind::PermissionDenied => "EACCES"@,
        FsErrorKind::AlreadyExists => "EEXIST"@,
        FsErrorKind::InvalidInput => "EINVAL"@,
        FsErrorKind::InvalidData => "EINVAL"@,
        FsErrorKind::TimedOut => "ETIMEDOUT"@,
        FsErrorKind::Interrupted => "EINTR"@,
        FsErrorKind::WouldBlock => "EWOULDBLOCK"@,
        FsErrorKind::Other => "EIO"@,
    }
}

/// The errno-style code that scripts see for a kind of error.
pub fn io_error_code(kind: &FsErrorKind) -> (r: &'static str)
    ensures
        r@ == spec_error_code(*kind),
{
    match kind {
        FsErrorKind::NotFound => "ENOENT",
        FsErrorKind::PermissionDenied => "EACCES",
        FsErrorKind::AlreadyExists => "EEXIST",
        FsErrorKind::InvalidInput => "EINVAL",
        FsErrorKind::InvalidData => "EINVAL",
        FsErrorKind::TimedOut => "ETIMEDOUT",
        FsErrorKind::Interrupted => "EINTR",
        FsErrorKind::WouldBlock => "EWOULDBLOCK",
        FsErrorKind::Other => "EIO",
    }
}

/// A failed file-system request as scripts see it: an errno-style code
/// and a message.
pub struct FsFailure {
    pub code: String,
    pub message: String,
}

/// The contents of a file as handed to a script: raw bytes, or text.
pub enum FileData {
    Bytes(Vec<u8>),
    Text(String),
}

/// Whether a normalized encoding name means UTF-8.
pub open spec fn is_utf8_name(e: Seq<char>) -> bool {
    e == "utf8"@ || e == "utf-8"@
}

/// `String::from_utf8`: the text that `bytes` encode in UTF-8, or the
/// error's text when they are not valid UTF-8.
#[verifier::external_body]
fn decode_utf8_bytes(bytes: Vec<u8>) -> (r: Result<String, String>)
    ensures
        r is Ok <==> valid_utf8(bytes@),
        r matches Ok(s) ==> s@ == decode_utf8(bytes@),
{
    match String::from_utf8(bytes) {
        Ok(text) => Ok(text),
        Err(error) => Err(error.to_string()),
    }
}

fn einval(message: String) -> (f: FsFailure)
    ensures
        f.code@ == "EINVAL"@,
        f.message == message,
{
    FsFailure { code: "EINVAL".to_string(), message }
}

/// The message for an encoding that the host does not support.
pub open spec fn unsupported_encoding_message(e: Seq<char>) -> Seq<char> {
    "不支持的编码: "@ + e
}

/// What a script gets for the bytes of a file read with the given
/// encoding: the bytes when there is none, the text for UTF-8, else an
/// `EINVAL` failure.
pub open spec fn read_reply(bytes: Seq<u8>, encoding: Option<String>, r: Result<FileData, FsFailure>) -> bool {
    let e = match encoding {
        Some(x) => spec_normalize_encoding(x@),
        None => Seq::<char>::empty(),
    };
    if e.len() == 0 {
        r matches Ok(FileData::Bytes(b)) && b@ == bytes
    } else if is_utf8_name(e) {
        if valid_utf8(bytes) {
            r matches Ok(FileData::Text(t)) && t@ == decode_utf8(bytes)
        } else {
            r matches Err(f) && f.code@ == "EINVAL"@
        }
    } else {
        r matches Err(f) && f.code@ == "EINVAL"@ && f.message@ == unsupported_encoding_message(e)
    }
}

/// Decides the reply to a file read, as `read_reply` says.
pub fn file_read_reply(bytes: Vec<u8>, encoding: Option<String>) -> (r: Result<FileData, FsFailure>)
    ensures
        read_reply(bytes@, encoding, r),
{
    let encoding = normalize_encoding(encoding);
    if encoding.as_str().unicode_len() == 0 {
        Ok(FileData::Bytes(bytes))
    } else if text_eq(encoding.as_str(), "utf8") || text_eq(encoding.as_str(), "utf-8") {
        match decode_utf8_bytes(bytes) {
            Ok(text) => Ok(FileData::Text(text)),
            Err(message) => Err(einval(message)),
        }
    } else {
        let mut message = "不支持的编码: ".to_string();
        message.append(encoding.as_str());
        Err(einval(message))
    }
}

/// A byte of a `bytes` payload.
pub open spec fn payload_byte(v: JsonValue) -> Result<u8, Seq<char>> {
    match spec_as_u64(v) {
        None => Err("bytes 数据必须是 0-255 的整数"@),
        Some(n) => if n > 255 {
            Err("bytes 数据必须在 0-255 范围内"@)
        } else {
            Ok(n as u8)
        },
    }
}

/// The bytes that a write payload `{kind, data}` stands for: a byte array
/// for `bytes`, UTF-8 text for `text`.
pub open spec fn spec_write_payload(v: JsonValue, encoding: Option<String>) -> Result<Seq<u8>, Seq<char>> {
    match spec_get(v, "kind"@) {
        None => Err("缺少 kind 字段"@),
        Some(k) => match spec_as_str(k) {
            None => Err("缺少 kind 字段"@),
            Some(kind) => if kind == "bytes"@ {
                match spec_get(v, "data"@) {
                    Some(JsonValue::Array(items)) => collect_all(items@, |x: JsonValue| payload_byte(x)),
                    _ => Err("bytes 数据格式错误"@),
                }
            } else if kind == "text"@ {
                match spec_get(v, "data"@) {
                    None => Err("text 数据格式错误"@),
                    Some(d) => match spec_as_str(d) {
                        None => Err("text 数据格式错误"@),
                        Some(text) => {
                            let e = match encoding {
                                Some(x) => spec_normalize_encoding(x@),
                                None => Seq::<char>::empty(),
                            };
                            if e.len() == 0 || is_utf8_name(e) {
                                Ok(vstd::utf8::encode_utf8(text))
                            } else {
                                Err(unsupported_encoding_message(e))
                            }
                        },
                    },
                }
            } else {
                Err("不支持的 kind: "@ + kind)
            },
        },
    }
}

fn parse_payload_bytes(items: &Vec<JsonValue>) -> (r: Result<Vec<u8>, String>)
    ensures
        match r {
            Ok(b) => collect_all(items@, |x: JsonValue| payload_byte(x)) == Ok::<Seq<u8>, Seq<char>>(b@),
            Err(e) => collect_all(items@, |x: JsonValue| payload_byte(x)) == Err::<Seq<u8>, Seq<char>>(e@),
        },
{
    let ghost f = |x: JsonValue| payload_byte(x);
    let mut out: Vec<u8> = Vec::new();
    let n = items.len();
    for i in 0..n
        invariant
            n == items@.len(),
            forall|x: JsonValue| #[trigger] f(x) == payload_byte(x),
            collect_all(items@, |x: JsonValue| payload_byte(x)) == collect_all(items@, f),
            collect_all(items@.take(i as int), f) == Ok::<Seq<u8>, Seq<char>>(out@),
    {
        proof {
            lemma_collect_step(items@, f, i as int);
            assert(f(items@[i as int]) == payload_byte(items@[i as int]));
        }
        let num = match items[i].as_u64() {
            Some(num) => num,
            None => {
                proof {
                    lemma_collect_prefix_err(items@, f, i + 1);
                }
                return Err("bytes 数据必须是 0-255 的整数".to_string());
            },
        };
        if num > 255 {
            proof {
                lemma_collect_prefix_err(items@, f, i + 1);
            }
            return Err("bytes 数据必须在 0-255 范围内".to_string());
        }
        out.push(num as u8);
    }
    proof {
        lemma_take_all(items@);
    }
    Ok(out)
}

/// Reads a write payload `{kind: "bytes", data: [..]}` or
/// `{kind: "text", data: ".."}` as the bytes to write; text must be
/// written as UTF-8.
pub fn parse_fs_write_payload(value: &JsonValue, encoding: Option<String>) -> (r: Result<Vec<u8>, String>)
    ensures
        match r {
            Ok(b) => spec_write_payload(*value, encoding) == Ok::<Seq<u8>, Seq<char>>(b@),
            Err(e) => spec_write_payload(*value, encoding) == Err::<Seq<u8>, Seq<char>>(e@),
        },
{
    let kind = match value.get("kind") {
        Some(k) => match k.as_str() {
            Some(kind) => kind,
            None => {
                return Err("缺少 kind 字段".to_string());
            },
        },
        None => {
            return Err("缺少 kind 字段".to_string());
        },
    };
    if text_eq(kind.as_str(), "bytes") {
        match value.get("data") {
            Some(JsonValue::Array(items)) => parse_payload_bytes(items),
            _ => Err("bytes 数据格式错误".to_string()),
        }
    } else if text_eq(kind.as_str(), "text") {
        let text = match value.get("data") {
            Some(d) => match d.as_str() {
                Some(text) => text,
                None => {
                    return Err("text 数据格式错误".to_string());
                },
            },
            None => {
                return Err("text 数据格式错误".to_string());
            },
        };
        let encoding = normalize_encoding(encoding);
        if encoding.as_str().unicode_len() == 0 || text_eq(encoding.as_str(), "utf8") || text_eq(encoding.as_str(), "utf-8") {
            Ok(text.as_str().as_bytes_vec())
        } else {
            let mut message = "不支持的编码: ".to_string();
            message.append(encoding.as_str());
            Err(message)
        }
    } else {
        let mut message = "不支持的 kind: ".to_string();
        message.append(kind.as_str());
        Err(message)
    }
}

/// What removing a path comes down to.
pub enum RmPlan {
    /// Nothing to do: the path is missing and `force` was given.
    Nothing,
    /// The path is missing.
    Missing,
    /// Remove a directory with everything in it.
    RemoveDirAll,
    /// Remove an empty directory.
    RemoveDir,
    /// Remove a file.
    RemoveFile,
}

/// What removing a path comes down to, given whether it exists and is a
/// directory.
pub fn rm_plan(exists: bool, is_dir: bool, recursive: bool, force: bool) -> (p: RmPlan)
    ensures
        !exists ==> (if force { p is Nothing } else { p is Missing }),
        exists && is_dir ==> (if recursive { p is RemoveDirAll } else { p is RemoveDir }),
        exists && !is_dir ==> p is RemoveFile,
{
    if !exists {
        if force {
            RmPlan::Nothing
        } else {
            RmPlan::Missing
        }
    } else if is_dir {
        if recursive {
            RmPlan::RemoveDirAll
        } else {
            RmPlan::RemoveDir
        }
    } else {
        RmPlan::RemoveFile
    }
}

/// What copying a path comes down to.
pub enum CpPlan {
    /// The source does not exist.
    SourceMissing,
    /// The target exists and that is an error.
    TargetExists,
    /// The target exists and `force` was not given.
    TargetExistsWithoutForce,
    /// The source is a directory and `recursive` was not given.
    DirectoryNeedsRecursive,
    /// Copy a directory tree.
    CopyDir,
    /// Copy a file.
    CopyFile,
}

/// What copying a path comes down to, given whether source and target
/// exist and whether the source is a directory.
pub fn cp_plan(
    src_exists: bool,
    dst_exists: bool,
    src_is_dir: bool,
    recursive: bool,
    force: bool,
    error_on_exist: bool,
) -> (p: CpPlan)
    ensures
        !src_exists ==> p is SourceMissing,
        src_exists && dst_exists && error_on_exist ==> p is TargetExists,
        src_exists && dst_exists && !error_on_exist && !force ==> p is TargetExistsWithoutForce,
        src_exists && (!dst_exists || (!error_on_exist && force)) ==> if src_is_dir {
            if recursive { p is CopyDir } else { p is DirectoryNeedsRecursive }
        } else {
            p is CopyFile
        },
{
    if !src_exists {
        return CpPlan::SourceMissing;
    }
    if dst_exists {
        if error_on_exist {
            return CpPlan::TargetExists;
        }
        if !force {
            return CpPlan::TargetExistsWithoutForce;
        }
    }
    if src_is_dir {
        if !recursive {
            CpPlan::DirectoryNeedsRecursive
        } else {
            CpPlan::CopyDir
        }
    } else {
        CpPlan::CopyFile
    }
}

/// Splits milliseconds since the epoch into whole seconds (rounded down,
/// also before the epoch) and the nanoseconds that remain.
pub fn split_millis(millis: i64) -> (r: (i64, u32))
    ensures
        r.0 == millis / 1000,
        r.1 == (millis % 1000) * 1_000_000,
        r.0 * 1000 + r.1 / 1_000_000 == millis,
        r.1 < 1_000_000_000,
{
    if millis >= 0 {
        let m = millis as u64;
        let secs = (m / 1000) as i64;
        let rest = (m % 1000) as u32;
        (secs, rest * 1_000_000)
    } else {
        let m = (-(millis + 1)) as u64;
        let secs = -((m / 1000) as i64) - 1;
        let rest = 999 - (m % 1000) as u32;
        (secs, rest * 1_000_000)
    }
}

/// A time as milliseconds since the epoch, cut to 64 bits as the host's
/// `as` conversion does.
pub fn system_time_to_millis(time: Option<u128>) -> (r: Option<i64>)
    ensures
        r == match time {
            Some(ms) => Some(ms as i64),
            None => None::<i64>,
        },
{
    match time {
        Some(ms) => Some(ms as i64),
        None => None,
    }
}

/// How many names `fs_mkdtemp` tries before it gives up.
pub const MKDTEMP_ATTEMPTS: usize = 32;

/// What `fs_mkdtemp` does after trying to create a candidate directory.
pub enum MkdtempNext {
    /// The directory was created: report its path.
    Created,
    /// The name was taken: try the next candidate.
    TryAgain,
    /// The name was taken on the last attempt: give up with `EEXIST`.
    GiveUp,
    /// Creating failed for another reason: report that error.
    Failed,
}

/// Decides the next step of `fs_mkdtemp` after attempt `attempt` (counted
/// from 0) created its candidate or failed with an error of kind `kind`:
/// only a taken name leads to another attempt, while attempts are left.
pub fn mkdtemp_next(attempt: usize, created: Result<(), FsErrorKind>) -> (n: MkdtempNext)
    requires
        attempt < MKDTEMP_ATTEMPTS,
    ensures
        match created {
            Ok(()) => n is Created,
            Err(FsErrorKind::AlreadyExists) => if attempt + 1 < MKDTEMP_ATTEMPTS { n is TryAgain } else { n is GiveUp },
            Err(_) => n is Failed,
        },
{
    match created {
        Ok(()) => MkdtempNext::Created,
        Err(FsErrorKind::AlreadyExists) => {
            if attempt + 1 < MKDTEMP_ATTEMPTS {
                MkdtempNext::TryAgain
            } else {
                MkdtempNext::GiveUp
            }
        },
        Err(_) => MkdtempNext::Failed,
    }
}

/// The lower-case hexadecimal digit of `d`.
pub open spec fn hex_digit(d: nat) -> char {
    if d < 10 {
        ((d + 48) as u8) as char
    } else {
        ((d + 87) as u8) as char
    }
}

/// The lower-case hexadecimal digits of `n`, at least `width` of them,
/// padded with `0` on the left.
pub open spec fn hex_padded(n: nat, width: nat) -> Seq<char>
    decreases width, n,
{
    if n < 16 {
        if width <= 1 {
            seq![hex_digit(n)]
        } else {
            hex_padded(0, (width - 1) as nat).push(hex_digit(n))
        }
    } else {
        hex_padded(n / 16, if width == 0 { 0 } else { (width - 1) as nat }).push(hex_digit(n % 16))
    }
}

fn hex_digit_char(d: u8) -> (c: char)
    requires
        d < 16,
    ensures
        c == hex_digit(d as nat),
{
    if d < 10 {
        (d + 48) as char
    } else {
        (d + 87) as char
    }
}

/// Appends the lower-case hexadecimal digits of `n`, at least `width` of
/// them, as `format!("{n:0width$x}")` writes them.
fn push_hex(out: &mut String, n: u128, width: usize)
    ensures
        final(out)@ == old(out)@ + hex_padded(n as nat, width as nat),
    decreases width, n,
{
    if n < 16 {
        if width > 1 {
            push_hex(out, 0, width - 1);
        }
        push_char(out, hex_digit_char(n as u8));
    } else {
        push_hex(out, n / 16, if width == 0 { 0 } else { width - 1 });
        push_char(out, hex_digit_char((n % 16) as u8));
    }
}

/// The name `fs_mkdtemp` tries for a time stamp and a sequence number:
/// the prefix, the time stamp in at least 16 hexadecimal digits, the
/// sequence number in at least 4.
pub fn mkdtemp_candidate(prefix: &str, ts: u128, seq: u64) -> (r: String)
    ensures
        r@ == prefix@ + hex_padded(ts as nat, 16) + hex_padded(seq as nat, 4),
{
    let mut out = prefix.to_string();
    push_hex(&mut out, ts, 16);
    push_hex(&mut out, seq as u128, 4);
    out
}

/// A byte payload is written as exactly its numbers, one byte each, in
/// order, whatever the encoding, when every number is in 0..=255.
pub proof fn law_bytes_payload_keeps_each_byte(payload: JsonValue, encoding: Option<String>, items: Seq<JsonValue>)
    requires
        spec_get(payload, "kind"@) matches Some(k) && spec_as_str(k) == Some("bytes"@),
        spec_get(payload, "data"@) matches Some(JsonValue::Array(v)) && v@ == items,
        forall|i: int| 0 <= i < items.len() ==> (#[trigger] spec_as_u64(items[i]) matches Some(n) && n <= 255),
    ensures
        spec_write_payload(payload, encoding) is Ok,
        spec_write_payload(payload, encoding)->Ok_0.len() == items.len(),
        forall|i: int| 0 <= i < items.len() ==>
            #[trigger] spec_write_payload(payload, encoding)->Ok_0[i] == spec_as_u64(items[i])->Some_0,
{
    reveal_strlit("bytes");
    let f = |x: JsonValue| payload_byte(x);
    assert forall|i: int| 0 <= i < items.len() implies #[trigger] f(items[i]) is Ok by {
        assert(spec_as_u64(items[i]) is Some);
    }
    lemma_collect_all_ok(items, f);
    assert forall|i: int| 0 <= i < items.len() implies
        #[trigger] spec_write_payload(payload, encoding)->Ok_0[i] == spec_as_u64(items[i])->Some_0 by {
        assert(spec_as_u64(items[i]) is Some);
        assert(f(items[i]) is Ok);
    }
}

/// Text is written as its UTF-8 bytes under every encoding a read
/// accepts as UTF-8: none, or one whose normalized name is empty, `utf8`
/// or `utf-8`.
pub proof fn law_text_payload_accepts_utf8_names(payload: JsonValue, encoding: Option<String>, text: Seq<char>)
    requires
        spec_get(payload, "kind"@) matches Some(k) && spec_as_str(k) == Some("text"@),
        spec_get(payload, "data"@) matches Some(d) && spec_as_str(d) == Some(text),
        encoding matches Some(name) ==> ({
            let e = spec_normalize_encoding(name@);
            e.len() == 0 || e == "utf8"@ || e == "utf-8"@
        }),
    ensures
        spec_write_payload(payload, encoding) == Ok::<Seq<u8>, Seq<char>>(vstd::utf8::encode_utf8(text)),
{
    reveal_strlit("bytes");
    reveal_strlit("text");
    assert("text"@ != "bytes"@) by {
        assert("text"@[0] != "bytes"@[0]);
    }
}

/// Text written through a write payload comes back unchanged when the file
/// is read as UTF-8: the bytes written are valid UTF-8 and decode to the
/// text.
pub proof fn law_text_write_read_roundtrip(payload: JsonValue, encoding: Option<String>, text: Seq<char>)
    requires
        spec_get(payload, "kind"@) matches Some(k) && spec_as_str(k) == Some("text"@),
        spec_get(payload, "data"@) matches Some(d) && spec_as_str(d) == Some(text),
        spec_write_payload(payload, encoding) is Ok,
    ensures
        spec_write_payload(payload, encoding) == Ok::<Seq<u8>, Seq<char>>(vstd::utf8::encode_utf8(text)),
        valid_utf8(vstd::utf8::encode_utf8(text)),
        decode_utf8(vstd::utf8::encode_utf8(text)) == text,
{
    reveal_strlit("bytes");
    reveal_strlit("text");
    assert("text"@ != "bytes"@) by {
        assert("text"@[0] != "bytes"@[0]);
    }
    vstd::utf8::encode_utf8_valid_utf8(text);
    vstd::utf8::encode_utf8_decode_utf8(text);
}

/// Text written through a write payload and read back from the same
/// bytes (the file is not changed in between) comes back as the same text
/// when read as UTF-8, and as the bytes written when read without an
/// encoding.
pub proof fn law_text_file_roundtrip(
    payload: JsonValue,
    write_encoding: Option<String>,
    text: Seq<char>,
    utf8: Option<String>,
    as_text: Result<FileData, FsFailure>,
    as_bytes: Result<FileData, FsFailure>,
)
    requires
        spec_get(payload, "kind"@) matches Some(k) && spec_as_str(k) == Some("text"@),
        spec_get(payload, "data"@) matches Some(d) && spec_as_str(d) == Some(text),
        spec_write_payload(payload, write_encoding) is Ok,
        utf8 matches Some(u) && is_utf8_name(spec_normalize_encoding(u@)),
        read_reply(spec_write_payload(payload, write_encoding)->Ok_0, utf8, as_text),
        read_reply(spec_write_payload(payload, write_encoding)->Ok_0, None, as_bytes),
    ensures
        as_text matches Ok(FileData::Text(t)) && t@ == text,
        as_bytes matches Ok(FileData::Bytes(b)) && b@ == vstd::utf8::encode_utf8(text),
{
    law_text_write_read_roundtrip(payload, write_encoding, text);
    let e = spec_normalize_encoding(utf8->Some_0@);
    assert(e.len() != 0) by {
        reveal_strlit("utf8");
        reveal_strlit("utf-8");
    }
}

} // verus!
