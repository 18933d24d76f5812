//! Character classes and string predicates shared by every record validator.
use vstd::prelude::*;

verus! {

/// Unicode general category `Cc`: the code points that `char::is_control` accepts.
pub open spec fn is_control_char(c: char) -> bool {
    (c as u32) < 0x20 || (0x7f <= (c as u32) && (c as u32) <= 0x9f)
}

/// The Unicode `White_Space` property, which `char::is_whitespace` decides.
pub open spec fn is_whitespace_char(c: char) -> bool {
    let v = c as u32;
    (0x09 <= v && v <= 0x0d) || v == 0x20 || v == 0x85 || v == 0xa0 || v == 0x1680 || (0x2000
        <= v && v <= 0x200a) || v == 0x2028 || v == 0x2029 || v == 0x202f || v == 0x205f || v
        == 0x3000
}

/// A lowercase hexadecimal digit: `0-9` or `a-f`.
pub open spec fn is_lower_hex_char(c: char) -> bool {
    ('0' <= c && c <= '9') || ('a' <= c && c <= 'f')
}

pub open spec fn has_control(s: Seq<char>) -> bool {
    exists|i: int| 0 <= i < s.len() && is_control_char(#[trigger] s[i])
}

pub open spec fn all_whitespace(s: Seq<char>) -> bool {
    forall|i: int| 0 <= i < s.len() ==> is_whitespace_char(#[trigger] s[i])
}

pub open spec fn has_whitespace(s: Seq<char>) -> bool {
    exists|i: int| 0 <= i < s.len() && is_whitespace_char(#[trigger] s[i])
}

/// A lowercase SHA-256 hex digest: exactly 64 lowercase hexadecimal characters.
pub open spec fn is_digest(s: Seq<char>) -> bool {
    s.len() == 64 && forall|i: int| 0 <= i < s.len() ==> is_lower_hex_char(#[trigger] s[i])
}

/// The number of UTF-8 bytes of a text (what `str::len` returns).
pub open spec fn byte_len(s: Seq<char>) -> nat {
    vstd::utf8::encode_utf8(s).len()
}

pub fn char_is_control(c: char) -> (r: bool)
    ensures
        r == is_control_char(c),
{
    let v = c as u32;
    v < 0x20 || (0x7f <= v && v <= 0x9f)
}

pub fn char_is_whitespace(c: char) -> (r: bool)
    ensures
        r == is_whitespace_char(c),
{
    let v = c as u32;
    (0x09 <= v && v <= 0x0d) || v == 0x20 || v == 0x85 || v == 0xa0 || v == 0x1680 || (0x2000
        <= v && v <= 0x200a) || v == 0x2028 || v == 0x2029 || v == 0x202f || v == 0x205f || v
        == 0x3000
}

/// Whether any character of `s` is a control character.
pub fn contains_control(s: &str) -> (r: bool)
    ensures
        r == has_control(s@),
{
    let mut found = false;
    for c in it: s.chars()
        invariant
            it.seq() == s@,
            found == exists|j: int| 0 <= j < it.index() && is_control_char(#[trigger] s@[j]),
    {
        if char_is_control(c) {
            found = true;
        }
    }
    found
}

/// Whether any character of `s` is whitespace.
pub fn contains_whitespace(s: &str) -> (r: bool)
    ensures
        r == has_whitespace(s@),
{
    let mut found = false;
    for c in it: s.chars()
        invariant
            it.seq() == s@,
            found == exists|j: int| 0 <= j < it.index() && is_whitespace_char(#[trigger] s@[j]),
    {
        if char_is_whitespace(c) {
            found = true;
        }
    }
    found
}

/// Whether `s.trim()` is empty, i.e. every character is whitespace.
pub fn is_blank(s: &str) -> (r: bool)
    ensures
        r == all_whitespace(s@),
{
    let mut blank = true;
    for c in it: s.chars()
        invariant
            it.seq() == s@,
            blank == forall|j: int| 0 <= j < it.index() ==> is_whitespace_char(#[trigger] s@[j]),
    {
        if !char_is_whitespace(c) {
            blank = false;
        }
    }
    blank
}

/// Whether `value` is a lowercase 64-character SHA-256 hex digest.
pub fn valid_digest(value: &str) -> (r: bool)
    ensures
        r == is_digest(value@),
{
    let mut all_hex = true;
    let mut count: usize = 0;
    for c in it: value.chars()
        invariant
            it.seq() == value@,
            count == if it.index() <= 65 { it.index() as int } else { 65 },
            all_hex == forall|j: int| 0 <= j < it.index() ==> is_lower_hex_char(#[trigger] value@[j]),
    {
        if !(('0' <= c && c <= '9') || ('a' <= c && c <= 'f')) {
            all_hex = false;
        }
        if count < 65 {
            count = count + 1;
        }
    }
    all_hex && count == 64
}

/// The characters of `s`.
pub fn text_chars(s: &str) -> (r: Vec<char>)
    ensures
        r@ == s@,
{
    let mut out: Vec<char> = Vec::new();
    for c in it: s.chars()
        invariant
            it.seq() == s@,
            out@ == s@.take(it.index() as int),
    {
        out.push(c);
        proof {
            assert(out@ =~= s@.take(it.index() + 1));
        }
    }
    proof {
        assert(out@ =~= s@);
    }
    out
}

/// Whether `s` starts with `prefix` followed by `sep`.
pub fn starts_with_then(s: &str, prefix: &str, sep: char) -> (r: bool)
    ensures
        r == (prefix@ + seq![sep]).is_prefix_of(s@),
{
    let a = text_chars(s);
    let b = text_chars(prefix);
    let ghost want = prefix@ + seq![sep];
    if a.len() <= b.len() {
        return false;
    }
    let n = b.len();
    for i in 0..n
        invariant
            n == b@.len(),
            a@ == s@,
            b@ == prefix@,
            a@.len() >= n + 1,
            want == prefix@ + seq![sep],
            forall|k: int| 0 <= k < i ==> a@[k] == b@[k],
    {
        if a[i] != b[i] {
            proof {
                assert(want[i as int] == b@[i as int]);
                if want.is_prefix_of(s@) {
                    assert(s@.subrange(0, want.len() as int)[i as int] == s@[i as int]);
                }
            }
            return false;
        }
    }
    if a[n] != sep {
        proof {
            assert(want[n as int] == sep);
            if want.is_prefix_of(s@) {
                assert(s@.subrange(0, want.len() as int)[n as int] == s@[n as int]);
            }
        }
        return false;
    }
    proof {
        assert forall|k: int| 0 <= k < want.len() implies want[k] == s@[k] by {
            if k < n {
                assert(want[k] == b@[k]);
            }
        }
    }
    true
}

/// Non-empty, at most `max` UTF-8 bytes, no control characters.
pub open spec fn text_ok(s: Seq<char>, max: nat) -> bool {
    s.len() != 0 && byte_len(s) <= max && !has_control(s)
}

pub fn valid_text(value: &str, max_len: usize) -> (r: bool)
    ensures
        r == text_ok(value@, max_len as nat),
{
    !value.is_empty() && value.as_bytes().len() <= max_len && !contains_control(value)
}

/// A digest is a short, printable text.
pub proof fn lemma_digest_is_text(s: Seq<char>)
    requires
        is_digest(s),
    ensures
        text_ok(s, 64),
        byte_len(s) == 64,
{
    assert(vstd::utf8::is_ascii_chars(s)) by {
        assert forall|i: int| 0 <= i < s.len() implies '\0' <= #[trigger] s[i] <= '\u{7f}' by {
            assert(is_lower_hex_char(s[i]));
        }
    }
    vstd::utf8::is_ascii_chars_encode_utf8(s);
    assert(!has_control(s)) by {
        if has_control(s) {
            let i = choose|i: int| 0 <= i < s.len() && is_control_char(#[trigger] s[i]);
            assert(is_lower_hex_char(s[i]));
        }
    }
}

/// Printable ASCII has no control characters.
pub proof fn lemma_printable(s: Seq<char>)
    requires
        forall|i: int| 0 <= i < s.len() ==> ' ' <= #[trigger] s[i] <= '~',
    ensures
        !has_control(s),
{
    if has_control(s) {
        let i = choose|i: int| 0 <= i < s.len() && is_control_char(#[trigger] s[i]);
        assert(' ' <= s[i] <= '~');
    }
}

} // verus!
