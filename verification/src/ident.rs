//! Module identifiers: absolute, scheme-qualified references, parsed into
//! scheme, host, and path components. The raw string form is the universal
//! cache and graph key; two identifiers are equal exactly when their string
//! forms are.

use vstd::prelude::*;

verus! {

/// An ASCII letter.
pub open spec fn is_alpha(c: char) -> bool {
    ('a' <= c && c <= 'z') || ('A' <= c && c <= 'Z')
}

/// A character allowed in a scheme after the first letter.
pub open spec fn is_scheme_char(c: char) -> bool {
    is_alpha(c) || ('0' <= c && c <= '9') || c == '+' || c == '-' || c == '.'
}

/// Position `i` ends a valid scheme: a leading letter, scheme characters up
/// to the first colon, which stands at `i`.
pub open spec fn valid_scheme_end(s: Seq<char>, i: int) -> bool {
    &&& 1 <= i < s.len()
    &&& s[i] == ':'
    &&& is_alpha(s[0])
    &&& forall|l: int| 1 <= l < i ==> is_scheme_char(#[trigger] s[l])
}

/// A character ending the authority component.
pub open spec fn stops_authority(c: char) -> bool {
    c == '/' || c == '?' || c == '#'
}

/// A character ending the path component.
pub open spec fn stops_path(c: char) -> bool {
    c == '?' || c == '#'
}

/// `i` is the first position at or after `from` that ends the authority, or
/// the end of the string.
pub open spec fn first_authority_end(s: Seq<char>, from: int, i: int) -> bool {
    &&& from <= i <= s.len()
    &&& (i == s.len() || stops_authority(s[i]))
    &&& forall|l: int| from <= l < i ==> !stops_authority(#[trigger] s[l])
}

/// `i` is the first position at or after `from` that ends the path, or the
/// end of the string.
pub open spec fn first_path_end(s: Seq<char>, from: int, i: int) -> bool {
    &&& from <= i <= s.len()
    &&& (i == s.len() || stops_path(s[i]))
    &&& forall|l: int| from <= l < i ==> !stops_path(#[trigger] s[l])
}

/// The character with an ASCII upper-case letter lowered.
pub open spec fn lower_char(c: char) -> char {
    if 'A' <= c && c <= 'Z' {
        (((c as u8) + 32) as u8) as char
    } else {
        c
    }
}

/// The witnesses splitting `s` into scheme, host, and path: the scheme ends
/// at the first colon and is normalized to lower case; with a `//`
/// authority the host runs to `ae` and the path from there to the first
/// query or fragment; without one the host is empty and the path starts
/// right after the colon.
pub open spec fn parse_witness(
    s: Seq<char>,
    i: int,
    ae: int,
    pe: int,
    scheme: Seq<char>,
    host: Seq<char>,
    path: Seq<char>,
) -> bool {
    &&& valid_scheme_end(s, i)
    &&& scheme == s.subrange(0, i).map_values(|c: char| lower_char(c))
    &&& if i + 3 <= s.len() && s[i + 1] == '/' && s[i + 2] == '/' {
        &&& first_authority_end(s, i + 3, ae)
        &&& first_path_end(s, ae, pe)
        &&& host == s.subrange(i + 3, ae)
        &&& path == s.subrange(ae, pe)
    } else {
        &&& ae == i + 1
        &&& first_path_end(s, i + 1, pe)
        &&& host == Seq::<char>::empty()
        &&& path == s.subrange(i + 1, pe)
    }
}

/// `s` splits into exactly these components.
pub open spec fn parses_to(
    s: Seq<char>,
    scheme: Seq<char>,
    host: Seq<char>,
    path: Seq<char>,
) -> bool {
    exists|i: int, ae: int, pe: int| parse_witness(s, i, ae, pe, scheme, host, path)
}

/// An absolute, scheme-qualified module reference. The components are those
/// of the raw string, which [`ModuleId::parse`] guarantees.
#[derive(Debug, PartialEq)]
pub struct ModuleId {
    pub raw: String,
    pub scheme: String,
    pub host: String,
    pub path: String,
}

/// Whether `c` ends an authority, as in [`stops_authority`].
fn stops_authority_exec(c: char) -> (r: bool)
    ensures
        r == stops_authority(c),
{
    c == '/' || c == '?' || c == '#'
}

/// The first position at or after `from` ending the authority.
fn scan_authority_end(s: &str, from: usize) -> (r: usize)
    requires
        from <= s@.len(),
    ensures
        first_authority_end(s@, from as int, r as int),
{
    let n = s.unicode_len();
    let mut a: usize = from;
    let mut stopped: bool = false;
    while !stopped && a < n
        invariant
            from <= a <= n,
            n == s@.len(),
            stopped ==> a < n && stops_authority(s@[a as int]),
            forall|l: int| from <= l < a ==> !stops_authority(#[trigger] s@[l]),
        decreases n - a, if stopped { 0int } else { 1int },
    {
        let c = s.get_char(a);
        if stops_authority_exec(c) {
            stopped = true;
        } else {
            a += 1;
        }
    }
    a
}

/// The first position at or after `from` ending the path.
fn scan_path_end(s: &str, from: usize) -> (r: usize)
    requires
        from <= s@.len(),
    ensures
        first_path_end(s@, from as int, r as int),
{
    let n = s.unicode_len();
    let mut a: usize = from;
    let mut stopped: bool = false;
    while !stopped && a < n
        invariant
            from <= a <= n,
            n == s@.len(),
            stopped ==> a < n && stops_path(s@[a as int]),
            forall|l: int| from <= l < a ==> !stops_path(#[trigger] s@[l]),
        decreases n - a, if stopped { 0int } else { 1int },
    {
        let c = s.get_char(a);
        if c == '?' || c == '#' {
            stopped = true;
        } else {
            a += 1;
        }
    }
    a
}

/// Relies on String::from_utf8: succeeds exactly on valid UTF-8 and returns
/// its decoding.
#[verifier::external_body]
pub(crate) fn bytes_to_string(v: Vec<u8>) -> (r: Option<String>)
    ensures
        r is Some <==> vstd::utf8::valid_utf8(v@),
        r is Some ==> r->0@ == vstd::utf8::decode_utf8(v@),
{
    match String::from_utf8(v) {
        Ok(s) => Some(s),
        Err(_) => None,
    }
}

/// The first `j` characters of `s`, a valid scheme, lowered to the
/// normalized scheme string.
fn lowered_scheme(s: &str, j: usize) -> (r: String)
    requires
        j <= s@.len(),
        1 <= j ==> is_alpha(s@[0]),
        forall|l: int| 1 <= l < j ==> is_scheme_char(#[trigger] s@[l]),
    ensures
        r@ == s@.subrange(0, j as int).map_values(|c: char| lower_char(c)),
{
    let mut sbytes: Vec<u8> = Vec::new();
    let mut j2: usize = 0;
    while j2 < j
        invariant
            j2 <= j <= s@.len(),
            1 <= j ==> is_alpha(s@[0]),
            forall|l: int| 1 <= l < j ==> is_scheme_char(#[trigger] s@[l]),
            sbytes@.len() == j2,
            forall|l: int| 0 <= l < j2 ==> sbytes@[l] == lower_char(#[trigger] s@[l]) as u8,
        decreases j - j2,
    {
        let c = s.get_char(j2);
        let code: u32 = c as u32;
        let lowered: u32 = if 65 <= code && code <= 90 {
            code + 32
        } else {
            code
        };
        proof {
            assert(code < 128);
            assert(lowered as u8 == lower_char(s@[j2 as int]) as u8);
        }
        sbytes.push(lowered as u8);
        j2 += 1;
    }
    let ghost target = s@.subrange(0, j as int).map_values(|c: char| lower_char(c));
    proof {
        assert forall|i: int| 0 <= i < target.len() implies '\0' <= #[trigger] target[i]
            <= '\u{7f}' by {
            assert(target[i] == lower_char(s@[i]));
            assert((s@[i] as u32) < 128);
        }
        assert(vstd::utf8::is_ascii_chars(target));
        vstd::utf8::is_ascii_chars_encode_utf8(target);
        assert(vstd::utf8::encode_utf8(target) =~= sbytes@);
        vstd::utf8::encode_utf8_valid_utf8(target);
        vstd::utf8::encode_utf8_decode_utf8(target);
    }
    match bytes_to_string(sbytes) {
        Some(scheme) => scheme,
        None => vstd::pervasive::unreached(),
    }
}

impl ModuleId {
    /// Parse an absolute identifier. Returns the identifier exactly when the
    /// string starts with a valid scheme and a colon; the components then
    /// split the string as [`parses_to`] says, the scheme lowered.
    pub fn parse(s: &str) -> (r: Option<ModuleId>)
        ensures
            r is Some <==> exists|i: int| valid_scheme_end(s@, i),
            r is Some ==> {
                let id = r->0;
                &&& id.raw@ == s@
                &&& parses_to(s@, id.scheme@, id.host@, id.path@)
            },
    {
        let n = s.unicode_len();
        if n == 0 {
            return None;
        }
        let c0 = s.get_char(0);
        let alpha0 = ('a' <= c0 && c0 <= 'z') || ('A' <= c0 && c0 <= 'Z');
        if !alpha0 {
            return None;
        }
        let mut j: usize = 1;
        while j < n
            invariant
                1 <= j <= n,
                n == s@.len(),
                is_alpha(s@[0]),
                forall|l: int| 1 <= l < j ==> is_scheme_char(#[trigger] s@[l]) && s@[l] != ':',
            decreases n - j,
        {
            let c = s.get_char(j);
            if c == ':' {
                let scheme = lowered_scheme(s, j);
                let has_authority = n - j >= 3 && s.get_char(j + 1) == '/' && s.get_char(j + 2)
                    == '/';
                if has_authority {
                    let ae = scan_authority_end(s, j + 3);
                    let pe = scan_path_end(s, ae);
                    let host = s.substring_char(j + 3, ae).to_owned();
                    let path = s.substring_char(ae, pe).to_owned();
                    let id = ModuleId { raw: s.to_owned(), scheme, host, path };
                    proof {
                        assert(parse_witness(
                            s@,
                            j as int,
                            ae as int,
                            pe as int,
                            id.scheme@,
                            id.host@,
                            id.path@,
                        ));
                    }
                    return Some(id);
                } else {
                    let pe = scan_path_end(s, j + 1);
                    let path = s.substring_char(j + 1, pe).to_owned();
                    let id = ModuleId {
                        raw: s.to_owned(),
                        scheme,
                        host: String::new(),
                        path,
                    };
                    proof {
                        assert(parse_witness(
                            s@,
                            j as int,
                            (j + 1) as int,
                            pe as int,
                            id.scheme@,
                            id.host@,
                            id.path@,
                        ));
                    }
                    return Some(id);
                }
            }
            let scheme_ok = ('a' <= c && c <= 'z') || ('A' <= c && c <= 'Z') || ('0' <= c && c
                <= '9') || c == '+' || c == '-' || c == '.';
            if !scheme_ok {
                proof {
                    assert forall|i: int| !valid_scheme_end(s@, i) by {
                        if 1 <= i < s@.len() && s@[i] == ':' {
                            assert(i != j as int);
                            if i < j as int {
                                assert(s@[i] != ':');
                            } else {
                                assert(!is_scheme_char(s@[j as int]));
                            }
                        }
                    }
                }
                return None;
            }
            j += 1;
        }
        proof {
            assert forall|i: int| !valid_scheme_end(s@, i) by {
                if 1 <= i < s@.len() && s@[i] == ':' {
                    assert(s@[i] != ':');
                }
            }
        }
        None
    }

    /// The raw string form, the universal cache and graph key.
    pub fn as_str(&self) -> (r: &str)
        ensures
            r@ == self.raw@,
    {
        self.raw.as_str()
    }
}

/// An ASCII hex digit.
pub open spec fn is_hex_digit(c: char) -> bool {
    ('0' <= c && c <= '9') || ('a' <= c && c <= 'f') || ('A' <= c && c <= 'F')
}

/// The value of an ASCII hex digit.
pub open spec fn hex_value(c: char) -> int {
    if '0' <= c && c <= '9' {
        c as u32 - '0' as u32
    } else if 'a' <= c && c <= 'f' {
        c as u32 - 'a' as u32 + 10
    } else {
        c as u32 - 'A' as u32 + 10
    }
}

/// The bytes from `i` on, with each valid `%`-escape decoded and every
/// other character taken as its UTF-8 bytes.
pub open spec fn pct_bytes(s: Seq<char>, i: int) -> Seq<u8>
    decreases s.len() - i,
{
    if i < 0 || i >= s.len() {
        Seq::empty()
    } else if s[i] == '%' && i + 3 <= s.len() && is_hex_digit(s[i + 1]) && is_hex_digit(
        s[i + 2],
    ) {
        seq![(hex_value(s[i + 1]) * 16 + hex_value(s[i + 2])) as u8] + pct_bytes(s, i + 3)
    } else {
        vstd::utf8::encode_utf8(seq![s[i]]) + pct_bytes(s, i + 1)
    }
}

/// The value of an ASCII hex digit, where `c` is one.
fn hex_digit_val(c: char) -> (r: Option<u8>)
    ensures
        r is Some <==> is_hex_digit(c),
        r is Some ==> r->0 == hex_value(c),
{
    if '0' <= c && c <= '9' {
        Some((c as u32 - '0' as u32) as u8)
    } else if 'a' <= c && c <= 'f' {
        Some((c as u32 - 'a' as u32 + 10) as u8)
    } else if 'A' <= c && c <= 'F' {
        Some((c as u32 - 'A' as u32 + 10) as u8)
    } else {
        None
    }
}

/// The percent-decoded bytes of `s`: valid `%`-escapes become their byte,
/// everything else its UTF-8 bytes.
pub fn percent_decode(s: &str) -> (r: Vec<u8>)
    ensures
        r@ == pct_bytes(s@, 0),
{
    let n = s.unicode_len();
    let mut out: Vec<u8> = Vec::new();
    let mut i: usize = 0;
    while i < n
        invariant
            i <= n,
            n == s@.len(),
            pct_bytes(s@, 0) == out@ + pct_bytes(s@, i as int),
        decreases n - i,
    {
        let c = s.get_char(i);
        let mut escape: Option<u8> = None;
        if c == '%' && n - i >= 3 {
            let h1 = hex_digit_val(s.get_char(i + 1));
            let h2 = hex_digit_val(s.get_char(i + 2));
            match (h1, h2) {
                (Some(a), Some(b)) => {
                    escape = Some(a * 16 + b);
                },
                _ => {},
            }
        }
        match escape {
            Some(b) => {
                out.push(b);
                proof {
                    assert(pct_bytes(s@, 0) =~= out@ + pct_bytes(s@, i + 3));
                }
                i = i + 3;
            },
            None => {
                let mut piece = s.substring_char(i, i + 1).as_bytes_vec();
                out.append(&mut piece);
                proof {
                    assert(s@.subrange(i as int, i as int + 1) =~= seq![s@[i as int]]);
                    assert(pct_bytes(s@, 0) =~= out@ + pct_bytes(s@, i + 1));
                }
                i = i + 1;
            },
        }
    }
    proof {
        assert(pct_bytes(s@, 0) =~= out@);
    }
    out
}

} // verus!
