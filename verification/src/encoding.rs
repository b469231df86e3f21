//! Encoding detection and normalization of a cached data file.
//!
//! An affix or dictionary file may declare its character encoding on a line
//! that begins with the ASCII bytes `SET `. The remainder of that line, with
//! trailing whitespace trimmed, names the encoding. When no such line exists
//! the file is taken to be UTF-8. A file in another encoding is decoded and
//! rewritten so that its first `SET <label>` directive reads `SET UTF-8`.

use vstd::prelude::*;
use vstd::string::StrSliceExecFns;
use vstd::string::StringExecFns;

use crate::error::ErrorModel;
use crate::error::SpellError;

verus! {

/// ASCII whitespace, as trimmed from the end of an encoding label.
pub open spec fn is_space(b: u8) -> bool {
    b == 9 || b == 10 || b == 11 || b == 12 || b == 13 || b == 32
}

/// The label assumed when a file carries no `SET ` line: the bytes of "utf-8".
pub open spec fn default_label() -> Seq<u8> {
    seq![117u8, 116u8, 102u8, 45u8, 56u8]
}

/// Index of the first newline byte of `s`, or `s.len()` when there is none.
pub open spec fn first_newline(s: Seq<u8>) -> int
    decreases s.len(),
{
    if s.len() == 0 {
        0
    } else if s[0] == 10 {
        0
    } else {
        1 + first_newline(s.drop_first())
    }
}

pub proof fn lemma_first_newline(s: Seq<u8>)
    ensures
        0 <= first_newline(s) <= s.len(),
        first_newline(s) < s.len() ==> s[first_newline(s)] == 10,
        forall|i: int| 0 <= i < first_newline(s) ==> s[i] != 10,
    decreases s.len(),
{
    if s.len() == 0 {
    } else if s[0] == 10 {
    } else {
        lemma_first_newline(s.drop_first());
        assert forall|i: int| 0 <= i < first_newline(s) implies s[i] != 10 by {
            if i > 0 {
                assert(s.drop_first()[i - 1] == s[i]);
            }
        }
    }
}

/// Whether a line (without its newline byte) begins with the bytes `SET `.
pub open spec fn line_is_set(line: Seq<u8>) -> bool {
    line.len() >= 4 && line[0] == 83 && line[1] == 69 && line[2] == 84 && line[3] == 32
}

/// `s` with every trailing ASCII whitespace byte removed.
pub open spec fn trim_trailing_space(s: Seq<u8>) -> Seq<u8>
    decreases s.len(),
{
    if s.len() == 0 {
        s
    } else if is_space(s.last()) {
        trim_trailing_space(s.drop_last())
    } else {
        s
    }
}

proof fn lemma_trim_is(s: Seq<u8>, k: int)
    requires
        0 <= k <= s.len(),
        forall|t: int| k <= t < s.len() ==> is_space(s[t]),
        k > 0 ==> !is_space(s[k - 1]),
    ensures
        trim_trailing_space(s) == s.take(k),
    decreases s.len(),
{
    if s.len() == 0 {
        assert(trim_trailing_space(s) =~= s.take(k));
    } else if k == s.len() {
        assert(s.take(k) =~= s);
    } else {
        assert(is_space(s.last()));
        lemma_trim_is(s.drop_last(), k);
        assert(s.drop_last().take(k) =~= s.take(k));
    }
}

/// The encoding label of a raw file: the trimmed remainder of the first line
/// that begins with `SET `, or the default label when no line does.
pub open spec fn detect_label(raw: Seq<u8>) -> Seq<u8>
    decreases raw.len(),
    via detect_label_decreases
{
    if raw.len() == 0 {
        default_label()
    } else {
        let n = first_newline(raw);
        if line_is_set(raw.take(n)) {
            trim_trailing_space(raw.take(n).skip(4))
        } else if n < raw.len() {
            detect_label(raw.skip(n + 1))
        } else {
            default_label()
        }
    }
}

#[via_fn]
proof fn detect_label_decreases(raw: Seq<u8>) {
    if raw.len() > 0 {
        lemma_first_newline(raw);
    }
}

/// Whether some line of `raw` begins with `SET `.
pub open spec fn some_line_sets_encoding(raw: Seq<u8>) -> bool
    decreases raw.len(),
    via some_line_sets_encoding_decreases
{
    if raw.len() == 0 {
        false
    } else {
        let n = first_newline(raw);
        line_is_set(raw.take(n)) || (n < raw.len() && some_line_sets_encoding(raw.skip(n + 1)))
    }
}

#[via_fn]
proof fn some_line_sets_encoding_decreases(raw: Seq<u8>) {
    if raw.len() > 0 {
        lemma_first_newline(raw);
    }
}

/// A file with no `SET ` line gets the default label.
pub proof fn lemma_no_set_line_default(raw: Seq<u8>)
    requires
        !some_line_sets_encoding(raw),
    ensures
        detect_label(raw) == default_label(),
    decreases raw.len(),
{
    if raw.len() > 0 {
        lemma_first_newline(raw);
        let n = first_newline(raw);
        if n < raw.len() {
            lemma_no_set_line_default(raw.skip(n + 1));
        }
    }
}

fn is_space_byte(b: u8) -> (r: bool)
    ensures
        r == is_space(b),
{
    b == 9 || b == 10 || b == 11 || b == 12 || b == 13 || b == 32
}

fn default_label_vec() -> (r: Vec<u8>)
    ensures
        r@ == default_label(),
{
    let mut v: Vec<u8> = Vec::new();
    v.push(117);
    v.push(116);
    v.push(102);
    v.push(45);
    v.push(56);
    proof {
        assert(v@ =~= default_label());
    }
    v
}

proof fn lemma_first_newline_is(s: Seq<u8>, m: int)
    requires
        0 <= m <= s.len(),
        forall|k: int| 0 <= k < m ==> s[k] != 10,
        m < s.len() ==> s[m] == 10,
    ensures
        first_newline(s) == m,
    decreases s.len(),
{
    if s.len() == 0 {
    } else if s[0] == 10 {
    } else {
        assert forall|k: int| 0 <= k < m - 1 implies s.drop_first()[k] != 10 by {
            assert(s.drop_first()[k] == s[k + 1]);
        }
        lemma_first_newline_is(s.drop_first(), m - 1);
    }
}

/// Finds the encoding label of a raw file, scanning its lines in order and
/// stopping at the first one that begins with `SET `.
pub fn detect_encoding(raw: &Vec<u8>) -> (r: Vec<u8>)
    ensures
        r@ == detect_label(raw@),
{
    let n = raw.len();
    let mut i: usize = 0;
    proof {
        assert(raw@.skip(0) =~= raw@);
    }
    loop
        invariant
            i <= n,
            n == raw.len(),
            detect_label(raw@) == detect_label(raw@.skip(i as int)),
        decreases n - i,
    {
        if i == n {
            proof {
                assert(raw@.skip(i as int) =~= Seq::<u8>::empty());
            }
            return default_label_vec();
        }
        let ghost suffix = raw@.skip(i as int);
        let mut j: usize = i;
        while j < n && raw[j] != 10
            invariant
                i <= j <= n,
                n == raw.len(),
                forall|k: int| i <= k < j ==> raw@[k] != 10,
            decreases n - j,
        {
            j = j + 1;
        }
        proof {
            assert forall|k: int| 0 <= k < j - i implies suffix[k] != 10 by {
                assert(suffix[k] == raw@[i + k]);
            }
            if (j - i) < suffix.len() {
                assert(suffix[j - i] == raw@[j as int]);
            }
            lemma_first_newline_is(suffix, j - i);
        }
        let ghost line = suffix.take(j - i);
        if j - i >= 4 && raw[i] == 83 && raw[i + 1] == 69 && raw[i + 2] == 84 && raw[i + 3] == 32 {
            proof {
                assert(line[0] == raw@[i as int]);
                assert(line[1] == raw@[i + 1]);
                assert(line[2] == raw@[i + 2]);
                assert(line[3] == raw@[i + 3]);
                assert(line_is_set(line));
            }
            let mut k: usize = j;
            while k > i + 4 && is_space_byte(raw[k - 1])
                invariant
                    i + 4 <= k <= j <= n,
                    n == raw.len(),
                    forall|t: int| k <= t < j ==> is_space(raw@[t]),
                decreases k,
            {
                k = k - 1;
            }
            let ghost rest = line.skip(4);
            proof {
                assert forall|t: int| (k - i - 4) <= t < rest.len() implies is_space(rest[t]) by {
                    assert(rest[t] == raw@[i + 4 + t]);
                }
                if k > i + 4 {
                    assert(rest[k - i - 4 - 1] == raw@[k - 1]);
                }
                lemma_trim_is(rest, k - i - 4);
            }
            let mut out: Vec<u8> = Vec::new();
            let mut t: usize = i + 4;
            while t < k
                invariant
                    i + 4 <= t <= k <= n,
                    n == raw.len(),
                    out@ == raw@.subrange(i + 4, t as int),
                decreases k - t,
            {
                out.push(raw[t]);
                t = t + 1;
                proof {
                    assert(out@ =~= raw@.subrange(i + 4, t as int));
                }
            }
            proof {
                assert(out@ =~= rest.take(k - i - 4));
            }
            return out;
        } else if j == n {
            proof {
                assert(!line_is_set(line)) by {
                    if line.len() >= 4 {
                        assert(line[0] == raw@[i as int]);
                        assert(line[1] == raw@[i + 1]);
                        assert(line[2] == raw@[i + 2]);
                        assert(line[3] == raw@[i + 3]);
                    }
                }
                assert(first_newline(suffix) == suffix.len());
            }
            return default_label_vec();
        } else {
            proof {
                assert(!line_is_set(line)) by {
                    if line.len() >= 4 {
                        assert(line[0] == raw@[i as int]);
                        assert(line[1] == raw@[i + 1]);
                        assert(line[2] == raw@[i + 2]);
                        assert(line[3] == raw@[i + 3]);
                    }
                }
                assert(suffix.skip(j - i + 1) =~= raw@.skip(j + 1));
            }
            i = j + 1;
        }
    }
}

/// The pattern `pat` occurs in `text` at position `i`.
pub open spec fn matches_at(text: Seq<char>, pat: Seq<char>, i: int) -> bool {
    0 <= i && i + pat.len() <= text.len() && text.subrange(i, i + pat.len()) == pat
}

/// Position of the first occurrence of `pat` in `text`, or -1 when there is none.
pub open spec fn first_match(text: Seq<char>, pat: Seq<char>) -> int
    decreases text.len(),
    via first_match_decreases
{
    if pat.len() > text.len() {
        -1
    } else if text.take(pat.len() as int) == pat {
        0
    } else {
        let m = first_match(text.drop_first(), pat);
        if m == -1 {
            -1
        } else {
            1 + m
        }
    }
}

#[via_fn]
proof fn first_match_decreases(text: Seq<char>, pat: Seq<char>) {
    if pat.len() <= text.len() && text.len() == 0 {
        assert(text.take(pat.len() as int) =~= pat);
    }
}

/// `text` with the first occurrence of `pat` replaced by `rep`; `text` itself
/// when `pat` does not occur.
pub open spec fn replace_first(text: Seq<char>, pat: Seq<char>, rep: Seq<char>) -> Seq<char> {
    let i = first_match(text, pat);
    if i < 0 {
        text
    } else {
        text.take(i) + rep + text.skip(i + pat.len())
    }
}

proof fn lemma_match_shift(text: Seq<char>, pat: Seq<char>, i: int)
    requires
        pat.len() <= text.len(),
        text.len() >= 1,
        1 <= i,
    ensures
        matches_at(text, pat, i) == matches_at(text.drop_first(), pat, i - 1),
{
    if 0 <= i - 1 && i - 1 + pat.len() <= text.drop_first().len() {
        let a = text.subrange(i, i + pat.len());
        let b = text.drop_first().subrange(i - 1, i - 1 + pat.len());
        assert forall|k: int| 0 <= k < pat.len() implies a[k] == b[k] by {
            assert(a[k] == text[i + k]);
            assert(b[k] == text.drop_first()[i - 1 + k]);
            assert(text.drop_first()[i - 1 + k] == text[i + k]);
        }
        assert(a =~= b);
    }
}

proof fn lemma_first_match_none(text: Seq<char>, pat: Seq<char>)
    requires
        forall|j: int| !matches_at(text, pat, j),
    ensures
        first_match(text, pat) == -1,
    decreases text.len(),
{
    if pat.len() <= text.len() {
        assert(!matches_at(text, pat, 0));
        assert(text.take(pat.len() as int) =~= text.subrange(0, pat.len() as int));
        if text.len() == 0 {
            assert(text.subrange(0, pat.len() as int) =~= pat);
        } else {
            assert forall|j: int| !matches_at(text.drop_first(), pat, j) by {
                if 0 <= j {
                    lemma_match_shift(text, pat, j + 1);
                }
            }
            lemma_first_match_none(text.drop_first(), pat);
        }
    }
}

proof fn lemma_first_match_at(text: Seq<char>, pat: Seq<char>, i: int)
    requires
        matches_at(text, pat, i),
        forall|j: int| 0 <= j < i ==> !matches_at(text, pat, j),
    ensures
        first_match(text, pat) == i,
    decreases text.len(),
{
    assert(text.take(pat.len() as int) =~= text.subrange(0, pat.len() as int));
    if i == 0 {
    } else {
        assert(!matches_at(text, pat, 0));
        lemma_match_shift(text, pat, i);
        assert forall|j: int| 0 <= j < i - 1 implies !matches_at(text.drop_first(), pat, j) by {
            lemma_match_shift(text, pat, j + 1);
        }
        lemma_first_match_at(text.drop_first(), pat, i - 1);
    }
}

fn match_at(text: &Vec<char>, pat: &Vec<char>, i: usize) -> (b: bool)
    requires
        i + pat@.len() <= text@.len(),
    ensures
        b == matches_at(text@, pat@, i as int),
{
    let m = pat.len();
    let mut k: usize = 0;
    while k < m
        invariant
            k <= m == pat.len(),
            i + m <= text.len(),
            forall|t: int| 0 <= t < k ==> text@[i + t] == pat@[t],
        decreases m - k,
    {
        if text[i + k] != pat[k] {
            proof {
                assert(text@.subrange(i as int, i + pat@.len())[k as int] == text@[i + k]);
            }
            return false;
        }
        k = k + 1;
    }
    proof {
        assert(text@.subrange(i as int, i + pat@.len()) =~= pat@);
    }
    true
}

fn push_range(out: &mut Vec<char>, src: &Vec<char>, from: usize, to: usize)
    requires
        from <= to <= src@.len(),
    ensures
        final(out)@ == old(out)@ + src@.subrange(from as int, to as int),
{
    let mut t: usize = from;
    while t < to
        invariant
            from <= t <= to <= src.len(),
            out@ == old(out)@ + src@.subrange(from as int, t as int),
        decreases to - t,
    {
        out.push(src[t]);
        t = t + 1;
        proof {
            assert(out@ =~= old(out)@ + src@.subrange(from as int, t as int));
        }
    }
}

/// Replaces the first occurrence of `pat` in `text` with `rep`, returning the
/// text unchanged when `pat` does not occur in it.
pub fn replace_first_chars(text: &Vec<char>, pat: &Vec<char>, rep: &Vec<char>) -> (r: Vec<char>)
    requires
        pat@.len() >= 1,
    ensures
        r@ == replace_first(text@, pat@, rep@),
{
    let n = text.len();
    let m = pat.len();
    if m <= n {
        let mut i: usize = 0;
        while i <= n - m
            invariant
                m >= 1,
                m <= n == text.len(),
                m == pat.len(),
                i <= n - m + 1,
                forall|j: int| 0 <= j < i ==> !matches_at(text@, pat@, j),
            decreases n - m + 1 - i,
        {
            if match_at(text, pat, i) {
                proof {
                    lemma_first_match_at(text@, pat@, i as int);
                }
                let mut out: Vec<char> = Vec::new();
                push_range(&mut out, text, 0, i);
                push_range(&mut out, rep, 0, rep.len());
                push_range(&mut out, text, i + m, n);
                proof {
                    assert(out@ =~= replace_first(text@, pat@, rep@));
                }
                return out;
            }
            i = i + 1;
        }
        proof {
            assert forall|j: int| !matches_at(text@, pat@, j) by {
                if 0 <= j && j + pat@.len() <= text@.len() {
                    assert(j < i);
                }
            }
            lemma_first_match_none(text@, pat@);
        }
    } else {
        proof {
            lemma_first_match_none(text@, pat@);
        }
    }
    let mut out: Vec<char> = Vec::new();
    push_range(&mut out, text, 0, n);
    proof {
        assert(out@ =~= text@);
    }
    out
}

/// What the charset registry says of a label: `None` when the label is not
/// recognized, otherwise `Some(b)` where `b` says whether it names UTF-8.
pub uninterp spec fn label_lookup(label: Seq<u8>) -> Option<bool>;

/// Relies on `encoding_rs::Encoding::for_label`: which encoding a label names
/// depends on the label's bytes alone, and the label "utf-8" names UTF-8.
#[verifier::external_body]
fn lookup_label(label: &Vec<u8>) -> (r: Option<bool>)
    ensures
        r == label_lookup(label@),
        label@ == default_label() ==> r == Some(true),
{
    encoding_rs::Encoding::for_label(label.as_slice()).map(|e| e == encoding_rs::UTF_8)
}

/// The text that decoding a byte buffer under a recognized label yields.
pub uninterp spec fn decoded_of(label: Seq<u8>, raw: Seq<u8>) -> Seq<char>;

/// Relies on `encoding_rs::Encoding::for_label` and `Encoding::decode`: the
/// text decoded from a byte buffer depends on the label and the bytes alone.
#[verifier::external_body]
fn decode_bytes(label: &Vec<u8>, raw: &Vec<u8>) -> (r: Vec<char>)
    requires
        label_lookup(label@) is Some,
    ensures
        r@ == decoded_of(label@, raw@),
{
    let encoding = encoding_rs::Encoding::for_label(label.as_slice()).unwrap();
    let (text, _, _) = encoding.decode(raw.as_slice());
    text.chars().collect()
}

/// Relies on `String::from_iter` over `char`: collecting chars yields the
/// string of exactly those chars.
#[verifier::external_body]
fn chars_to_string(chars: &Vec<char>) -> (r: String)
    ensures
        r@ == chars@,
{
    chars.iter().collect()
}

/// The chars of `SET `, the prefix of an encoding directive line.
pub open spec fn set_prefix() -> Seq<char> {
    seq!['S', 'E', 'T', ' ']
}

/// The directive announcing a label, as it stands in the decoded text.
pub open spec fn set_pattern(label: Seq<u8>) -> Seq<char> {
    set_prefix() + label.map(|_t: int, b: u8| b as char)
}

/// The directive a normalized file carries in place of the original one.
pub open spec fn utf8_directive() -> Seq<char> {
    seq!['S', 'E', 'T', ' ', 'U', 'T', 'F', '-', '8']
}

fn build_set_pattern(label: &Vec<u8>) -> (r: Vec<char>)
    ensures
        r@ == set_pattern(label@),
{
    let mut v: Vec<char> = Vec::new();
    v.push('S');
    v.push('E');
    v.push('T');
    v.push(' ');
    proof {
        assert(v@ =~= set_prefix() + label@.take(0).map(|_t: int, b: u8| b as char));
    }
    let mut i: usize = 0;
    while i < label.len()
        invariant
            i <= label.len(),
            v@ == set_prefix() + label@.take(i as int).map(|_t: int, b: u8| b as char),
        decreases label.len() - i,
    {
        v.push(label[i] as char);
        i = i + 1;
        proof {
            assert(v@ =~= set_prefix() + label@.take(i as int).map(|_t: int, b: u8| b as char));
        }
    }
    proof {
        assert(label@.take(label@.len() as int) =~= label@);
    }
    v
}

fn utf8_directive_vec() -> (r: Vec<char>)
    ensures
        r@ == utf8_directive(),
{
    let mut v: Vec<char> = Vec::new();
    v.push('S');
    v.push('E');
    v.push('T');
    v.push(' ');
    v.push('U');
    v.push('T');
    v.push('F');
    v.push('-');
    v.push('8');
    proof {
        assert(v@ =~= utf8_directive());
    }
    v
}

/// The message of the conversion error raised when the `SET ` directive names
/// an encoding the charset registry does not know.
pub open spec fn unknown_label_message(label: Seq<u8>) -> Seq<char> {
    "unrecognized encoding label "@ + label.map(|_t: int, b: u8| b as char)
}

fn bytes_as_chars(bytes: &Vec<u8>) -> (r: Vec<char>)
    ensures
        r@ == bytes@.map(|_t: int, b: u8| b as char),
{
    let mut v: Vec<char> = Vec::new();
    proof {
        assert(v@ =~= bytes@.take(0).map(|_t: int, b: u8| b as char));
    }
    let mut i: usize = 0;
    while i < bytes.len()
        invariant
            i <= bytes.len(),
            v@ == bytes@.take(i as int).map(|_t: int, b: u8| b as char),
        decreases bytes.len() - i,
    {
        v.push(bytes[i] as char);
        i = i + 1;
        proof {
            assert(v@ =~= bytes@.take(i as int).map(|_t: int, b: u8| b as char));
        }
    }
    proof {
        assert(bytes@.take(bytes@.len() as int) =~= bytes@);
    }
    v
}

fn unknown_label_error(label: &Vec<u8>) -> (r: SpellError)
    ensures
        r@ == (ErrorModel::ConversionError { message: unknown_label_message(label@) }),
{
    let mut message = String::from_str("unrecognized encoding label ");
    let tail = chars_to_string(&bytes_as_chars(label));
    message.append(tail.as_str());
    SpellError::ConversionError { message }
}

/// The bytes a normalized file must hold, given the raw bytes of its source:
/// the same bytes when they already are UTF-8, the UTF-8 encoding of the
/// decoded text with its directive rewritten when they are not, and a
/// conversion error naming the label when it is not recognized.
pub open spec fn normalize_spec(raw: Seq<u8>) -> Result<Seq<u8>, ErrorModel> {
    let label = detect_label(raw);
    match label_lookup(label) {
        Option::None => Result::Err(
            ErrorModel::ConversionError { message: unknown_label_message(label) },
        ),
        Option::Some(is_utf8) => if is_utf8 {
            Result::Ok(raw)
        } else {
            Result::Ok(
                vstd::utf8::encode_utf8(
                    replace_first(decoded_of(label, raw), set_pattern(label), utf8_directive()),
                ),
            )
        },
    }
}

/// Exec/model correspondence for the result of [`normalize`].
pub open spec fn normalize_models(r: Result<Vec<u8>, SpellError>, m: Result<Seq<u8>, ErrorModel>) -> bool {
    match (r, m) {
        (Result::Ok(v), Result::Ok(s)) => v@ == s,
        (Result::Err(e), Result::Err(em)) => e@ == em,
        _ => false,
    }
}

/// Normalizes the raw bytes of a cached file to UTF-8, rewriting the first
/// `SET <label>` directive to `SET UTF-8` when a non-UTF-8 label is detected.
/// A file with no `SET ` line is treated as UTF-8 and passed through unchanged.
pub fn normalize(raw: Vec<u8>) -> (r: Result<Vec<u8>, SpellError>)
    ensures
        normalize_models(r, normalize_spec(raw@)),
        !some_line_sets_encoding(raw@) ==> (r matches Ok(v) && v@ == raw@),
{
    let label = detect_encoding(&raw);
    proof {
        if !some_line_sets_encoding(raw@) {
            lemma_no_set_line_default(raw@);
        }
    }
    match lookup_label(&label) {
        Option::None => Result::Err(unknown_label_error(&label)),
        Option::Some(is_utf8) => if is_utf8 {
            Result::Ok(raw)
        } else {
            let chars = decode_bytes(&label, &raw);
            let pat = build_set_pattern(&label);
            let rep = utf8_directive_vec();
            let replaced = replace_first_chars(&chars, &pat, &rep);
            let text = chars_to_string(&replaced);
            let out = text.as_str().as_bytes_vec();
            Result::Ok(out)
        },
    }
}

} // verus!
