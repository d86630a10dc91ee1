//! Content-type detection from a file's leading bytes and, for text, its name.

use vstd::prelude::*;
use vstd::utf8::encode_utf8;

verus! {

/// `true` when `s` starts with the bytes of `p`.
pub open spec fn starts_with(s: Seq<u8>, p: Seq<u8>) -> bool {
    p.len() <= s.len() && s.subrange(0, p.len() as int) == p
}

/// `true` when `s` ends with the bytes of `p`.
pub open spec fn ends_with(s: Seq<u8>, p: Seq<u8>) -> bool {
    p.len() <= s.len() && s.subrange(s.len() - p.len(), s.len() as int) == p
}

/// Content that holds a NUL byte is binary; everything else is text.
pub open spec fn is_binary(content: Seq<u8>) -> bool {
    exists|i: int| 0 <= i < content.len() && content[i] == 0u8
}

/// The type that a signature at the start of `content` announces, if any.
pub open spec fn sniffed_mime(content: Seq<u8>) -> Option<Seq<char>> {
    if starts_with(content, seq![0x89u8, 0x50u8, 0x4eu8, 0x47u8]) {
        Some("image/png"@)
    } else if starts_with(content, seq![0x47u8, 0x49u8, 0x46u8, 0x38u8]) {
        Some("image/gif"@)
    } else if starts_with(content, seq![0xffu8, 0xd8u8, 0xffu8]) {
        Some("image/jpeg"@)
    } else if starts_with(content, seq![0x25u8, 0x50u8, 0x44u8, 0x46u8]) {
        Some("application/pdf"@)
    } else if starts_with(content, seq![0x1fu8, 0x8bu8]) {
        Some("application/gzip"@)
    } else if starts_with(content, seq![0x50u8, 0x4bu8, 0x03u8, 0x04u8]) {
        Some("application/zip"@)
    } else {
        None
    }
}

/// The type of a text file, chosen by the end of its name (UTF-8 bytes).
pub open spec fn text_mime(name: Seq<u8>) -> Seq<char> {
    if ends_with(name, seq![0x2eu8, 0x68u8, 0x74u8, 0x6du8, 0x6cu8]) {
        "text/html"@
    } else if ends_with(name, seq![0x2eu8, 0x63u8, 0x73u8, 0x73u8]) {
        "text/css"@
    } else if ends_with(name, seq![0x2eu8, 0x6au8, 0x73u8, 0x6fu8, 0x6eu8]) {
        "application/json"@
    } else if ends_with(name, seq![0x2eu8, 0x6au8, 0x73u8]) {
        "application/javascript"@
    } else if ends_with(name, seq![0x2eu8, 0x73u8, 0x76u8, 0x67u8]) {
        "image/svg+xml"@
    } else if ends_with(name, seq![0x2eu8, 0x6du8, 0x64u8]) {
        "text/markdown"@
    } else if ends_with(name, seq![0x2eu8, 0x72u8, 0x73u8]) {
        "text/rust"@
    } else if ends_with(name, seq![0x2eu8, 0x74u8, 0x6fu8, 0x6du8, 0x6cu8]) {
        "text/toml"@
    } else {
        "text/plain"@
    }
}

/// The fallback for content of unknown type.
pub open spec fn fallback_mime() -> Seq<char> {
    "application/octet-stream"@
}

/// The content type of a file named `name` (UTF-8 bytes) holding `content`:
/// a known signature decides first; empty and other binary content falls
/// back to `application/octet-stream`; text is typed by its name.
pub open spec fn mime_of(name: Seq<u8>, content: Seq<u8>) -> Seq<char> {
    match sniffed_mime(content) {
        Some(m) => m,
        None => if content.len() == 0 || is_binary(content) {
            fallback_mime()
        } else {
            text_mime(name)
        },
    }
}

/// The content type of a file whose path is `path`.
pub open spec fn mime_of_path(path: Seq<char>, content: Seq<u8>) -> Seq<char> {
    mime_of(encode_utf8(path), content)
}

fn has_prefix(s: &[u8], p: &[u8]) -> (r: bool)
    ensures
        r == starts_with(s@, p@),
{
    if p.len() > s.len() {
        return false;
    }
    let mut i: usize = 0;
    while i < p.len()
        invariant
            p@.len() <= s@.len(),
            0 <= i <= p@.len(),
            forall|j: int| 0 <= j < i ==> s@[j] == p@[j],
        decreases p.len() - i,
    {
        if s[i] != p[i] {
            assert(s@.subrange(0, p@.len() as int)[i as int] != p@[i as int]);
            return false;
        }
        i = i + 1;
    }
    assert(s@.subrange(0, p@.len() as int) =~= p@);
    true
}

fn has_suffix(s: &[u8], p: &[u8]) -> (r: bool)
    ensures
        r == ends_with(s@, p@),
{
    if p.len() > s.len() {
        return false;
    }
    let n: usize = s.len();
    let off: usize = n - p.len();
    let mut i: usize = 0;
    while i < p.len()
        invariant
            p@.len() <= s@.len(),
            n == s@.len(),
            off + p@.len() == n,
            0 <= i <= p@.len(),
            forall|j: int| 0 <= j < i ==> s@[off + j] == p@[j],
        decreases p.len() - i,
    {
        if s[off + i] != p[i] {
            assert(s@.subrange(off as int, s@.len() as int)[i as int] != p@[i as int]);
            return false;
        }
        i = i + 1;
    }
    assert(s@.subrange(off as int, s@.len() as int) =~= p@);
    true
}

fn has_nul(content: &[u8]) -> (r: bool)
    ensures
        r == is_binary(content@),
{
    let mut i: usize = 0;
    while i < content.len()
        invariant
            0 <= i <= content@.len(),
            forall|j: int| 0 <= j < i ==> content@[j] != 0u8,
        decreases content.len() - i,
    {
        if content[i] == 0u8 {
            return true;
        }
        i = i + 1;
    }
    false
}

fn sniff(content: &[u8]) -> (r: Option<String>)
    ensures
        match (r, sniffed_mime(content@)) {
            (Some(s), Some(m)) => s@ == m,
            (None, None) => true,
            _ => false,
        },
{
    if has_prefix(content, &[0x89u8, 0x50u8, 0x4eu8, 0x47u8]) {
        Some(String::from_str("image/png"))
    } else if has_prefix(content, &[0x47u8, 0x49u8, 0x46u8, 0x38u8]) {
        Some(String::from_str("image/gif"))
    } else if has_prefix(content, &[0xffu8, 0xd8u8, 0xffu8]) {
        Some(String::from_str("image/jpeg"))
    } else if has_prefix(content, &[0x25u8, 0x50u8, 0x44u8, 0x46u8]) {
        Some(String::from_str("application/pdf"))
    } else if has_prefix(content, &[0x1fu8, 0x8bu8]) {
        Some(String::from_str("application/gzip"))
    } else if has_prefix(content, &[0x50u8, 0x4bu8, 0x03u8, 0x04u8]) {
        Some(String::from_str("application/zip"))
    } else {
        None
    }
}

fn text_type(name: &[u8]) -> (r: String)
    ensures
        r@ == text_mime(name@),
{
    if has_suffix(name, &[0x2eu8, 0x68u8, 0x74u8, 0x6du8, 0x6cu8]) {
        String::from_str("text/html")
    } else if has_suffix(name, &[0x2eu8, 0x63u8, 0x73u8, 0x73u8]) {
        String::from_str("text/css")
    } else if has_suffix(name, &[0x2eu8, 0x6au8, 0x73u8, 0x6fu8, 0x6eu8]) {
        String::from_str("application/json")
    } else if has_suffix(name, &[0x2eu8, 0x6au8, 0x73u8]) {
        String::from_str("application/javascript")
    } else if has_suffix(name, &[0x2eu8, 0x73u8, 0x76u8, 0x67u8]) {
        String::from_str("image/svg+xml")
    } else if has_suffix(name, &[0x2eu8, 0x6du8, 0x64u8]) {
        String::from_str("text/markdown")
    } else if has_suffix(name, &[0x2eu8, 0x72u8, 0x73u8]) {
        String::from_str("text/rust")
    } else if has_suffix(name, &[0x2eu8, 0x74u8, 0x6fu8, 0x6du8, 0x6cu8]) {
        String::from_str("text/toml")
    } else {
        String::from_str("text/plain")
    }
}

/// Classifies a file named `path` holding `content`. Never fails: unknown
/// content gets `application/octet-stream`.
pub fn classify(path: &str, content: &[u8]) -> (r: String)
    ensures
        r@ == mime_of_path(path@, content@),
{
    match sniff(content) {
        Some(m) => m,
        None => if content.len() == 0 || has_nul(content) {
            String::from_str("application/octet-stream")
        } else {
            text_type(path.as_bytes())
        },
    }
}

} // verus!
