//! Consistency of the C header with the Rust ABI version: the version is
//! read from the line `pub const ABI_VERSION: u32 = N;` of the Rust source,
//! and the header must define `GWT_ABI_VERSION` as `Nu`.

use vstd::prelude::*;
use crate::text::{contains_bytes, utf8};

verus! {

/// The byte that ends a line.
pub open spec fn newline() -> u8 {
    10u8
}

/// The byte that may come before a line's newline.
pub open spec fn carriage_return() -> u8 {
    13u8
}

/// Where the line that starts at `start` ends: the first newline at or
/// after `start`, or the end of the text.
pub open spec fn line_end(s: Seq<u8>, start: int) -> int
    decreases s.len() - start,
{
    if start >= s.len() || start < 0 {
        s.len() as int
    } else if s[start] == newline() {
        start
    } else {
        line_end(s, start + 1)
    }
}

/// The line that starts at `start`, without its line ending (a newline, or
/// a carriage return and a newline), as `str::lines` gives it.
pub open spec fn line_at(s: Seq<u8>, start: int) -> Seq<u8> {
    let e = line_end(s, start);
    let raw = s.subrange(start, e);
    if e < s.len() && raw.len() > 0 && raw.last() == carriage_return() {
        raw.drop_last()
    } else {
        raw
    }
}

/// The text that begins the line of the Rust ABI version.
pub open spec fn version_prefix() -> Seq<u8> {
    utf8("pub const ABI_VERSION: u32 = "@)
}

/// The version that `line` declares, if it is the version line: the text
/// between the prefix and a final `;`.
pub open spec fn declared_version(line: Seq<u8>) -> Option<Seq<u8>> {
    let p = version_prefix();
    if line.len() >= p.len() + 1 && line.subrange(0, p.len() as int) == p && line.last() == 59u8 {
        Some(line.subrange(p.len() as int, line.len() - 1))
    } else {
        None
    }
}

/// The version declared by the first version line at or after `start`.
pub open spec fn version_from(s: Seq<u8>, start: int) -> Option<Seq<u8>>
    decreases s.len() - start,
{
    if start >= s.len() || start < 0 {
        None
    } else {
        match declared_version(line_at(s, start)) {
            Some(v) => Some(v),
            None => {
                proof {
                    lemma_line_end_bounds(s, start);
                }
                if line_end(s, start) >= s.len() {
                    None
                } else {
                    version_from(s, line_end(s, start) + 1)
                }
            },
        }
    }
}

/// The definition that the header must hold for `version`.
pub open spec fn header_define(version: Seq<u8>) -> Seq<u8> {
    utf8("#define GWT_ABI_VERSION "@) + version + seq![117u8]
}

/// A line ends at or after its start, at a newline or at the end of the text,
/// and holds no newline.
pub proof fn lemma_line_end_bounds(s: Seq<u8>, start: int)
    requires
        0 <= start <= s.len(),
    ensures
        start <= line_end(s, start) <= s.len(),
        line_end(s, start) < s.len() ==> s[line_end(s, start)] == newline(),
        forall|k: int| start <= k < line_end(s, start) ==> s[k] != newline(),
    decreases s.len() - start,
{
    if start < s.len() && s[start] != newline() {
        lemma_line_end_bounds(s, start + 1);
    }
}

fn find_line_end(s: &[u8], start: usize) -> (e: usize)
    requires
        start <= s@.len(),
    ensures
        e == line_end(s@, start as int),
{
    let mut k = start;
    while k < s.len() && s[k] != 10u8
        invariant
            start <= k <= s@.len(),
            line_end(s@, k as int) == line_end(s@, start as int),
        decreases s@.len() - k,
    {
        k = k + 1;
    }
    k
}

fn slice_equals(s: &[u8], from: usize, expected: &[u8]) -> (r: bool)
    requires
        from + expected@.len() <= s@.len(),
    ensures
        r == (s@.subrange(from as int, from + expected@.len()) == expected@),
{
    let n = s.len();
    let mut j: usize = 0;
    while j < expected.len()
        invariant
            n == s@.len(),
            from + expected@.len() <= s@.len(),
            j <= expected@.len(),
            forall|m: int| 0 <= m < j ==> s@[from + m] == expected@[m],
        decreases expected@.len() - j,
    {
        if s[from + j] != expected[j] {
            assert(s@.subrange(from as int, from + expected@.len())[j as int] != expected@[j as int]);
            return false;
        }
        j = j + 1;
    }
    assert(s@.subrange(from as int, from + expected@.len()) =~= expected@);
    true
}

fn copy_range(s: &[u8], from: usize, to: usize) -> (v: Vec<u8>)
    requires
        from <= to <= s@.len(),
    ensures
        v@ == s@.subrange(from as int, to as int),
{
    let mut v: Vec<u8> = Vec::new();
    let mut k = from;
    while k < to
        invariant
            from <= k <= to,
            to <= s@.len(),
            v@ == s@.subrange(from as int, k as int),
        decreases to - k,
    {
        v.push(s[k]);
        k = k + 1;
        assert(v@ =~= s@.subrange(from as int, k as int));
    }
    v
}

/// The ABI version that the Rust source declares: the text after
/// `pub const ABI_VERSION: u32 = ` and before the final `;` of the first
/// line that has that form.
pub fn abi_version_from_source(source: &str) -> (r: Option<Vec<u8>>)
    ensures
        match r {
            Some(v) => version_from(utf8(source@), 0) == Some(v@),
            None => version_from(utf8(source@), 0) is None,
        },
{
    let s = source.as_bytes();
    let prefix = "pub const ABI_VERSION: u32 = ".as_bytes();
    let n = s.len();
    let mut start: usize = 0;
    while start < n
        invariant
            n == s@.len(),
            start <= n,
            s@ == utf8(source@),
            prefix@ == version_prefix(),
            version_from(s@, start as int) == version_from(s@, 0),
        decreases n - start,
    {
        let e = find_line_end(s, start);
        proof {
            lemma_line_end_bounds(s@, start as int);
        }
        let stripped = e < n && e > start && s[e - 1] == 13u8;
        let end = if stripped {
            e - 1
        } else {
            e
        };
        let ghost line = line_at(s@, start as int);
        assert(line =~= s@.subrange(start as int, end as int));
        let len = end - start;
        if len > prefix.len() && s[end - 1] == 59u8 && slice_equals(s, start, prefix) {
            assert(line.subrange(0, prefix@.len() as int) =~= s@.subrange(
                start as int,
                start + prefix@.len(),
            ));
            let v = copy_range(s, start + prefix.len(), end - 1);
            assert(v@ =~= line.subrange(prefix@.len() as int, line.len() - 1));
            return Some(v);
        }
        proof {
            if len >= prefix@.len() + 1 && s@[end - 1] == 59u8 {
                assert(line.subrange(0, prefix@.len() as int) =~= s@.subrange(
                    start as int,
                    start + prefix@.len(),
                ));
            }
            assert(declared_version(line) is None);
        }
        if e >= n {
            return None;
        }
        start = e + 1;
    }
    None
}

/// Whether the header defines `GWT_ABI_VERSION` as `version` followed by
/// `u`.
pub fn header_declares_abi_version(header: &str, version: &[u8]) -> (r: bool)
    ensures
        r == contains_bytes(utf8(header@), header_define(version@)),
{
    let mut needle: Vec<u8> = Vec::new();
    let define = "#define GWT_ABI_VERSION ".as_bytes();
    let mut k: usize = 0;
    while k < define.len()
        invariant
            k <= define@.len(),
            needle@ == define@.take(k as int),
        decreases define@.len() - k,
    {
        needle.push(define[k]);
        k = k + 1;
        assert(needle@ =~= define@.take(k as int));
    }
    assert(define@.take(k as int) =~= define@);
    let mut k: usize = 0;
    let ghost base = needle@;
    while k < version.len()
        invariant
            k <= version@.len(),
            needle@ == base + version@.take(k as int),
        decreases version@.len() - k,
    {
        needle.push(version[k]);
        k = k + 1;
        assert(needle@ =~= base + version@.take(k as int));
    }
    assert(version@.take(k as int) =~= version@);
    needle.push(117u8);
    assert(needle@ =~= header_define(version@));
    contains_exact(header.as_bytes(), needle.as_slice())
}

/// Whether `needle` occurs in `hay`.
pub fn contains_exact(hay: &[u8], needle: &[u8]) -> (r: bool)
    ensures
        r == contains_bytes(hay@, needle@),
{
    if needle.len() > hay.len() {
        assert forall|i: int|
            0 <= i && i + needle@.len() <= hay@.len() implies #[trigger] hay@.subrange(
            i,
            i + needle@.len(),
        ) != needle@ by {}
        return false;
    }
    let last = hay.len() - needle.len();
    let mut i: usize = 0;
    while i <= last
        invariant
            last == hay.len() - needle.len(),
            needle.len() <= hay.len(),
            i <= last + 1,
            forall|k: int| 0 <= k < i ==> #[trigger] hay@.subrange(k, k + needle@.len()) != needle@,
        decreases last + 1 - i,
    {
        if slice_equals(hay, i, needle) {
            return true;
        }
        if i == last {
            return false;
        }
        i = i + 1;
    }
    false
}

} // verus!
