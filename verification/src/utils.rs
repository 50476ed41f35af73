//! Helpers for sanitising Matrix usernames, formatting room aliases,
//! validating homeserver URLs, generating device identifiers and escaping HTML.

use vstd::prelude::*;

use crate::error::{ConstellationError, Result};
use crate::text::{chars_of, push_char, same_text};

verus! {

// ---------------------------------------------------------------------------
// HTML escaping
// ---------------------------------------------------------------------------

/// What `c` becomes in escaped HTML: `&`, `<`, `>`, `"` and `'` become
/// entities, every other character stays as it is.
pub open spec fn escape_char(c: char) -> Seq<char> {
    if c == '&' {
        "&amp;"@
    } else if c == '<' {
        "&lt;"@
    } else if c == '>' {
        "&gt;"@
    } else if c == '"' {
        "&quot;"@
    } else if c == '\'' {
        "&#x27;"@
    } else {
        seq![c]
    }
}

/// `s` with each character replaced by its escape.
pub open spec fn html_escaped(s: Seq<char>) -> Seq<char>
    decreases s.len(),
{
    if s.len() == 0 {
        Seq::empty()
    } else {
        html_escaped(s.drop_last()) + escape_char(s.last())
    }
}

/// A character that would open or close markup or an attribute value.
pub open spec fn is_markup_char(c: char) -> bool {
    c == '<' || c == '>' || c == '"' || c == '\''
}

proof fn lemma_escape_char_no_markup(c: char)
    ensures
        forall|i: int| 0 <= i < escape_char(c).len() ==> !is_markup_char(#[trigger] escape_char(c)[i]),
{
    reveal_strlit("&amp;");
    reveal_strlit("&lt;");
    reveal_strlit("&gt;");
    reveal_strlit("&quot;");
    reveal_strlit("&#x27;");
}

/// Escaped text holds no character that opens or closes markup or an
/// attribute value, whatever the input.
pub proof fn lemma_html_escaped_has_no_markup(s: Seq<char>)
    ensures
        forall|i: int| 0 <= i < html_escaped(s).len() ==> !is_markup_char(#[trigger] html_escaped(s)[i]),
    decreases s.len(),
{
    if s.len() > 0 {
        lemma_html_escaped_has_no_markup(s.drop_last());
        lemma_escape_char_no_markup(s.last());
        let a = html_escaped(s.drop_last());
        let b = escape_char(s.last());
        assert forall|i: int| 0 <= i < html_escaped(s).len() implies !is_markup_char(#[trigger] html_escaped(s)[i]) by {
            if i < a.len() {
                assert(html_escaped(s)[i] == a[i]);
            } else {
                assert(html_escaped(s)[i] == b[i - a.len()]);
            }
        }
    }
}

/// Escaping changes only `&`, `<`, `>`, `"` and `'`: a text that holds none
/// of them escapes to itself, so every other character is kept as it is.
pub proof fn lemma_escape_keeps_other_chars(s: Seq<char>)
    requires
        forall|i: int| 0 <= i < s.len() ==> {
            let c = #[trigger] s[i];
            c != '&' && c != '<' && c != '>' && c != '"' && c != '\''
        },
    ensures
        html_escaped(s) == s,
    decreases s.len(),
{
    if s.len() > 0 {
        let init = s.drop_last();
        assert forall|i: int| 0 <= i < init.len() implies {
            let c = #[trigger] init[i];
            c != '&' && c != '<' && c != '>' && c != '"' && c != '\''
        } by {
            assert(init[i] == s[i]);
        }
        lemma_escape_keeps_other_chars(init);
        assert(s.last() == s[s.len() - 1]);
        assert(init + seq![s.last()] =~= s);
    }
}

/// Escaping works character by character: the escape of `a + b` is the
/// escape of `a` followed by the escape of `b`; the five special characters
/// become `&amp;`, `&lt;`, `&gt;`, `&quot;` and `&#x27;`.
pub proof fn lemma_escape_by_char(a: Seq<char>, b: Seq<char>)
    ensures
        html_escaped(a + b) == html_escaped(a) + html_escaped(b),
        html_escaped(seq!['&']) == "&amp;"@,
        html_escaped(seq!['<']) == "&lt;"@,
        html_escaped(seq!['>']) == "&gt;"@,
        html_escaped(seq!['"']) == "&quot;"@,
        html_escaped(seq!['\'']) == "&#x27;"@,
    decreases b.len(),
{
    if b.len() > 0 {
        lemma_escape_by_char(a, b.drop_last());
        assert((a + b).drop_last() =~= a + b.drop_last());
        assert((a + b).last() == b.last());
    } else {
        assert(a + b =~= a);
    }
    lemma_escape_single('&');
    lemma_escape_single('<');
    lemma_escape_single('>');
    lemma_escape_single('"');
    lemma_escape_single('\'');
}

proof fn lemma_escape_single(c: char)
    ensures
        html_escaped(seq![c]) == escape_char(c),
{
    let one = seq![c];
    assert(one.drop_last() =~= Seq::<char>::empty());
    assert(one.last() == c);
    assert(html_escaped(Seq::<char>::empty()) == Seq::<char>::empty());
    assert(html_escaped(one) == html_escaped(one.drop_last()) + escape_char(one.last()));
    assert(Seq::<char>::empty() + escape_char(c) =~= escape_char(c));
}

/// Escape a string for safe inclusion in Matrix HTML `formatted_body`.
///
/// Replaces `&`, `<`, `>`, `"`, and `'` with their HTML entity equivalents.
pub fn html_escape(s: &str) -> (res: String)
    ensures
        res@ == html_escaped(s@),
        forall|i: int| 0 <= i < res@.len() ==> !is_markup_char(#[trigger] res@[i]),
{
    let cs = chars_of(s);
    let mut escaped = String::new();
    let mut i: usize = 0;
    while i < cs.len()
        invariant
            cs@ == s@,
            i <= cs.len(),
            escaped@ == html_escaped(cs@.take(i as int)),
        decreases cs.len() - i,
    {
        let ch = cs[i];
        if ch == '&' {
            escaped.append("&amp;");
        } else if ch == '<' {
            escaped.append("&lt;");
        } else if ch == '>' {
            escaped.append("&gt;");
        } else if ch == '"' {
            escaped.append("&quot;");
        } else if ch == '\'' {
            escaped.append("&#x27;");
        } else {
            push_char(&mut escaped, ch);
        }
        assert(cs@.take(i + 1).drop_last() =~= cs@.take(i as int));
        i += 1;
    }
    assert(cs@.take(cs.len() as int) =~= cs@);
    proof {
        lemma_html_escaped_has_no_markup(s@);
    }
    escaped
}


// ---------------------------------------------------------------------------
// Username sanitising
// ---------------------------------------------------------------------------

/// Characters that a localpart keeps as they are.
pub open spec fn is_kept_localpart_char(c: char) -> bool {
    ('a' <= c && c <= 'z') || ('0' <= c && c <= '9') || c == '.' || c == '_' || c == '=' || c == '/'
}

/// Characters that a sanitised localpart may hold: the kept ones and `-`.
pub open spec fn is_localpart_char(c: char) -> bool {
    is_kept_localpart_char(c) || c == '-'
}

/// What one character of a display name becomes: ASCII capitals are
/// lowered, kept characters stay, anything else becomes `-`.
pub open spec fn localpart_char(c: char) -> char {
    if 'A' <= c && c <= 'Z' {
        ((c as u32) + 32) as char
    } else if is_kept_localpart_char(c) {
        c
    } else {
        '-'
    }
}

/// `s` with each run of consecutive `-` shortened to a single `-`.
pub open spec fn collapse_hyphens(s: Seq<char>) -> Seq<char>
    decreases s.len(),
{
    if s.len() == 0 {
        s
    } else if s.len() >= 2 && s.last() == '-' && s[s.len() - 2] == '-' {
        collapse_hyphens(s.drop_last())
    } else {
        collapse_hyphens(s.drop_last()).push(s.last())
    }
}

/// `s` without its leading and trailing `-`.
pub open spec fn trim_hyphens(s: Seq<char>) -> Seq<char>
    decreases s.len(),
{
    if s.len() == 0 {
        s
    } else if s[0] == '-' {
        trim_hyphens(s.drop_first())
    } else if s.last() == '-' {
        trim_hyphens(s.drop_last())
    } else {
        s
    }
}

/// The localpart that a display name sanitises to.
pub open spec fn sanitized_localpart(name: Seq<char>) -> Seq<char> {
    trim_hyphens(collapse_hyphens(name.map_values(|c: char| localpart_char(c))))
}

/// A well-formed sanitised localpart: only localpart characters, no `-` at
/// either end and no two `-` in a row.
pub open spec fn is_clean_localpart(s: Seq<char>) -> bool {
    &&& forall|i: int| 0 <= i < s.len() ==> is_localpart_char(#[trigger] s[i])
    &&& s.len() > 0 ==> s[0] != '-' && s.last() != '-'
    &&& forall|i: int| 0 <= i < s.len() - 1 ==> !(#[trigger] s[i] == '-' && s[i + 1] == '-')
}

proof fn lemma_collapse_last(s: Seq<char>)
    ensures
        (collapse_hyphens(s).len() == 0) == (s.len() == 0),
        s.len() > 0 ==> collapse_hyphens(s).last() == s.last(),
    decreases s.len(),
{
    if s.len() > 0 {
        lemma_collapse_last(s.drop_last());
    }
}

proof fn lemma_collapse_push(s: Seq<char>, c: char)
    ensures
        collapse_hyphens(s.push(c)) == (if c == '-' && s.len() > 0 && s.last() == '-' {
            collapse_hyphens(s)
        } else {
            collapse_hyphens(s).push(c)
        }),
{
    assert(s.push(c).drop_last() =~= s);
}

/// The exact value that a sanitising first pass builds up, for the
/// proof of `sanitize_username`: its collapse is that of the mapped name.
proof fn lemma_collapse_agrees(r: Seq<char>, m: Seq<char>, c: char)
    requires
        collapse_hyphens(r) == collapse_hyphens(m),
    ensures
        collapse_hyphens(r.push(c)) == collapse_hyphens(m.push(c)),
        (r.len() > 0 && r.last() == '-') == (m.len() > 0 && m.last() == '-'),
{
    lemma_collapse_last(r);
    lemma_collapse_last(m);
    lemma_collapse_push(r, c);
    lemma_collapse_push(m, c);
}

proof fn lemma_collapse_clean(s: Seq<char>)
    requires
        forall|i: int| 0 <= i < s.len() ==> is_localpart_char(#[trigger] s[i]),
    ensures
        forall|i: int| 0 <= i < collapse_hyphens(s).len() ==> is_localpart_char(#[trigger] collapse_hyphens(s)[i]),
        forall|i: int| 0 <= i < collapse_hyphens(s).len() - 1
            ==> !(#[trigger] collapse_hyphens(s)[i] == '-' && collapse_hyphens(s)[i + 1] == '-'),
    decreases s.len(),
{
    if s.len() > 0 {
        let p = s.drop_last();
        lemma_collapse_clean(p);
        lemma_collapse_last(p);
        let cp = collapse_hyphens(p);
        if s.len() >= 2 && s.last() == '-' && s[s.len() - 2] == '-' {
        } else {
            let c = collapse_hyphens(s);
            assert(c == cp.push(s.last()));
            assert forall|i: int| 0 <= i < c.len() - 1 implies !(#[trigger] c[i] == '-' && c[i + 1] == '-') by {
                if i + 1 == cp.len() {
                    assert(c[i] == cp.last());
                    assert(cp.last() == p.last());
                }
            }
        }
    }
}

proof fn lemma_trim_clean(s: Seq<char>)
    requires
        forall|i: int| 0 <= i < s.len() ==> is_localpart_char(#[trigger] s[i]),
        forall|i: int| 0 <= i < s.len() - 1 ==> !(#[trigger] s[i] == '-' && s[i + 1] == '-'),
    ensures
        is_clean_localpart(trim_hyphens(s)),
    decreases s.len(),
{
    if s.len() > 0 {
        if s[0] == '-' {
            let t = s.drop_first();
            assert forall|i: int| 0 <= i < t.len() - 1 implies !(#[trigger] t[i] == '-' && t[i + 1] == '-') by {
                assert(t[i] == s[i + 1] && t[i + 1] == s[i + 2]);
            }
            lemma_trim_clean(t);
        } else if s.last() == '-' {
            lemma_trim_clean(s.drop_last());
        }
    }
}

/// Whatever the display name, its sanitised localpart holds only `a-z`,
/// `0-9`, `.`, `_`, `=`, `/` and `-`, never starts or ends with `-`, and
/// never holds two `-` in a row.
pub proof fn lemma_sanitized_is_clean(name: Seq<char>)
    ensures
        is_clean_localpart(sanitized_localpart(name)),
{
    let m = name.map_values(|c: char| localpart_char(c));
    assert forall|i: int| 0 <= i < m.len() implies is_localpart_char(#[trigger] m[i]) by {
        let c = name[i];
        if 'A' <= c && c <= 'Z' {
            assert('a' <= localpart_char(c) && localpart_char(c) <= 'z');
        }
    }
    lemma_collapse_clean(m);
    lemma_trim_clean(collapse_hyphens(m));
}

proof fn lemma_collapse_fixed(s: Seq<char>)
    requires
        forall|i: int| 0 <= i < s.len() - 1 ==> !(#[trigger] s[i] == '-' && s[i + 1] == '-'),
    ensures
        collapse_hyphens(s) == s,
    decreases s.len(),
{
    if s.len() > 0 {
        let p = s.drop_last();
        assert forall|i: int| 0 <= i < p.len() - 1 implies !(#[trigger] p[i] == '-' && p[i + 1] == '-') by {
            assert(p[i] == s[i] && p[i + 1] == s[i + 1]);
        }
        lemma_collapse_fixed(p);
        if s.len() >= 2 {
            assert(!(s[s.len() - 2] == '-' && s[s.len() - 1] == '-'));
        }
        assert(p.push(s.last()) =~= s);
    }
}

/// A clean localpart sanitises to itself.
pub proof fn lemma_clean_localpart_is_fixed(s: Seq<char>)
    requires
        is_clean_localpart(s),
    ensures
        sanitized_localpart(s) == s,
{
    let m = s.map_values(|c: char| localpart_char(c));
    assert(m =~= s);
    lemma_collapse_fixed(s);
}

/// Sanitising twice gives what sanitising once gives.
pub proof fn lemma_sanitize_idempotent(name: Seq<char>)
    ensures
        sanitized_localpart(sanitized_localpart(name)) == sanitized_localpart(name),
{
    lemma_sanitized_is_clean(name);
    lemma_clean_localpart_is_fixed(sanitized_localpart(name));
}

/// Sanitize a display name into a valid Matrix localpart.
///
/// Matrix localparts may only contain `a-z`, `0-9`, `.`, `_`, `=`, `-`, and `/`.
/// This function lowercases the input, replaces spaces and other invalid characters
/// with hyphens, collapses consecutive hyphens, and trims leading/trailing hyphens.
pub fn sanitize_username(name: &str) -> (res: String)
    ensures
        res@ == sanitized_localpart(name@),
        is_clean_localpart(res@),
{
    proof {
        lemma_sanitized_is_clean(name@);
    }
    let cs = chars_of(name);
    let ghost mapped = name@.map_values(|c: char| localpart_char(c));
    let mut result: Vec<char> = Vec::new();
    let mut i: usize = 0;
    while i < cs.len()
        invariant
            cs@ == name@,
            mapped == name@.map_values(|c: char| localpart_char(c)),
            i <= cs.len(),
            collapse_hyphens(result@) == collapse_hyphens(mapped.take(i as int)),
        decreases cs.len() - i,
    {
        let ch = cs[i];
        let ghost prev = result@;
        assert(mapped.take(i + 1) =~= mapped.take(i as int).push(localpart_char(ch)));
        proof {
            lemma_collapse_agrees(prev, mapped.take(i as int), localpart_char(ch));
        }
        if 'A' <= ch && ch <= 'Z' {
            let lower = ((ch as u8) + 32) as char;
            result.push(lower);
        } else if ('a' <= ch && ch <= 'z') || ('0' <= ch && ch <= '9') || ch == '.' || ch == '_'
            || ch == '=' || ch == '/' {
            result.push(ch);
        } else if ch == ' ' || ch == '-' {
            result.push('-');
        } else {
            // Replace any other character with a hyphen.
            if !(result.len() > 0 && result[result.len() - 1] == '-') {
                result.push('-');
            } else {
                proof {
                    lemma_collapse_push(mapped.take(i as int), '-');
                    lemma_collapse_last(prev);
                    lemma_collapse_last(mapped.take(i as int));
                }
            }
        }
        i += 1;
    }
    assert(mapped.take(cs.len() as int) =~= mapped);

    // Collapse consecutive hyphens.
    let mut collapsed: Vec<char> = Vec::new();
    let mut prev_hyphen = false;
    let mut j: usize = 0;
    while j < result.len()
        invariant
            j <= result.len(),
            collapsed@ == collapse_hyphens(result@.take(j as int)),
            prev_hyphen == (j > 0 && result@[j - 1] == '-'),
        decreases result.len() - j,
    {
        let ch = result[j];
        assert(result@.take(j + 1).drop_last() =~= result@.take(j as int));
        if ch == '-' {
            if !prev_hyphen {
                collapsed.push('-');
            }
            prev_hyphen = true;
        } else {
            collapsed.push(ch);
            prev_hyphen = false;
        }
        j += 1;
    }
    assert(result@.take(result.len() as int) =~= result@);

    // Trim leading and trailing hyphens.
    let mut a: usize = 0;
    let mut b: usize = collapsed.len();
    assert(collapsed@.subrange(0, collapsed.len() as int) =~= collapsed@);
    while a < b && collapsed[a] == '-'
        invariant
            a <= b == collapsed.len(),
            trim_hyphens(collapsed@.subrange(a as int, b as int)) == trim_hyphens(collapsed@),
        decreases b - a,
    {
        assert(collapsed@.subrange(a as int, b as int).drop_first() =~= collapsed@.subrange(a + 1, b as int));
        a += 1;
    }
    while b > a && collapsed[b - 1] == '-'
        invariant
            a <= b <= collapsed.len(),
            a < b ==> collapsed@[a as int] != '-',
            trim_hyphens(collapsed@.subrange(a as int, b as int)) == trim_hyphens(collapsed@),
        decreases b - a,
    {
        assert(collapsed@.subrange(a as int, b as int).drop_last() =~= collapsed@.subrange(a as int, b - 1));
        b -= 1;
    }
    let mut out = String::new();
    let mut k: usize = a;
    while k < b
        invariant
            a <= k <= b <= collapsed.len(),
            out@ == collapsed@.subrange(a as int, k as int),
        decreases b - k,
    {
        push_char(&mut out, collapsed[k]);
        assert(collapsed@.subrange(a as int, k + 1) =~= collapsed@.subrange(a as int, k as int).push(collapsed@[k as int]));
        k += 1;
    }
    out
}


// ---------------------------------------------------------------------------
// Room aliases
// ---------------------------------------------------------------------------

/// The alias `#<sanitised name>:<server>`.
pub open spec fn room_alias(name: Seq<char>, server: Seq<char>) -> Seq<char> {
    seq!['#'] + sanitized_localpart(name) + seq![':'] + server
}

/// Format a room alias in the standard Matrix `#name:server` format.
///
/// The name is sanitized like a username; the leading `#` and `:server`
/// are added automatically.
pub fn format_room_alias(name: &str, server: &str) -> (res: String)
    ensures
        res@ == room_alias(name@, server@),
{
    let sanitized = sanitize_username(name);
    let mut alias = String::new();
    push_char(&mut alias, '#');
    alias.append(sanitized.as_str());
    push_char(&mut alias, ':');
    alias.append(server);
    alias
}

// ---------------------------------------------------------------------------
// Device identifiers
// ---------------------------------------------------------------------------

/// A lowercase hexadecimal digit.
pub open spec fn is_lower_hex_digit(c: char) -> bool {
    ('0' <= c && c <= '9') || ('a' <= c && c <= 'f')
}

/// A fresh random (version 4) UUID in its simple form:
/// `uuid::Uuid::new_v4()` formatted by `Uuid::simple()`.
/// Claimed, as the `uuid` source shows (`format_simple` with lowercase
/// digits): 32 characters, each a lowercase hexadecimal digit. Which digits
/// come out is left open: they come from a random source.
#[verifier::external_body]
fn random_uuid_simple() -> (res: String)
    ensures
        res@.len() == 32,
        forall|i: int| 0 <= i < 32 ==> is_lower_hex_digit(#[trigger] res@[i]),
{
    uuid::Uuid::new_v4().simple().to_string()
}

/// The device ID made from the text of a UUID: `CONSTELLATION_` followed
/// by the first 12 characters of the text.
pub fn device_id_from_uuid(uuid_text: &str) -> (res: String)
    requires
        uuid_text@.len() >= 12,
        forall|i: int| 0 <= i < 12 ==> (#[trigger] uuid_text@[i] as u32) < 128,
    ensures
        res@ == "CONSTELLATION_"@ + uuid_text@.take(12),
{
    let digits = chars_of(uuid_text);
    let mut id = String::from_str("CONSTELLATION_");
    let ghost prefix = id@;
    let mut k: usize = 0;
    while k < 12
        invariant
            digits@ == uuid_text@,
            digits@.len() >= 12,
            prefix == "CONSTELLATION_"@,
            k <= 12,
            id@ == prefix + digits@.take(k as int),
        decreases 12 - k,
    {
        push_char(&mut id, digits[k]);
        assert(digits@.take(k + 1) =~= digits@.take(k as int).push(digits@[k as int]));
        k += 1;
    }
    id
}

/// Generate a unique device ID for an agent session.
///
/// Produces a string like `CONSTELLATION_a1b2c3d4e5f6`: the prefix followed
/// by the first 12 hex digits of a fresh random UUID.
pub fn generate_device_id() -> (res: String)
    ensures
        res@.len() == 26,
        res@.subrange(0, 14) == "CONSTELLATION_"@,
        forall|i: int| 14 <= i < 26 ==> is_lower_hex_digit(#[trigger] res@[i]),
{
    let short_id = random_uuid_simple();
    let id = device_id_from_uuid(short_id.as_str());
    proof {
        reveal_strlit("CONSTELLATION_");
        assert(id@.subrange(0, 14) =~= "CONSTELLATION_"@);
        assert forall|i: int| 14 <= i < 26 implies is_lower_hex_digit(#[trigger] id@[i]) by {
            assert(id@[i] == short_id@[i - 14]);
        }
    }
    id
}

// ---------------------------------------------------------------------------
// Homeserver URLs
// ---------------------------------------------------------------------------

/// Makes `url::Url` known to Verus as an opaque type.
#[verifier::external_type_specification]
#[verifier::external_body]
pub struct ExUrl(url::Url);

/// Makes `url::ParseError` known to Verus as an opaque type.
#[verifier::external_type_specification]
#[verifier::external_body]
pub struct ExUrlParseError(url::ParseError);

/// The plain parts of a URL: its serialization, scheme, host (if any),
/// explicit port (if any) and path.
pub type UrlParts = (Seq<char>, Seq<char>, Option<Seq<char>>, Option<u16>, Seq<char>);

/// The view of an optional string.
pub open spec fn opt_text(o: Option<String>) -> Option<Seq<char>> {
    match o {
        Some(t) => Some(t@),
        None => None,
    }
}

/// A URL as the `url` crate produced it, with its parts held as plain
/// values. Only the parsing functions of this module make one, so the
/// parts are always those of `url`.
#[derive(Debug)]
pub struct ParsedUrl {
    url: url::Url,
    text: String,
    scheme: String,
    host: Option<String>,
    port: Option<u16>,
    path: String,
}

/// Why a URL failed to parse: the `url` crate's error and its text.
#[derive(Debug)]
pub struct UrlError {
    /// The error.
    pub error: url::ParseError,
    /// Its `Display` text.
    pub text: String,
}

impl ParsedUrl {
    /// The URL's parts.
    pub closed spec fn parts(self) -> UrlParts {
        (self.text@, self.scheme@, opt_text(self.host), self.port, self.path@)
    }

    /// The URL's serialization (`Url::as_str`).
    pub fn as_str(&self) -> (res: &str)
        ensures
            res@ == self.parts().0,
    {
        self.text.as_str()
    }

    /// The URL's scheme (`Url::scheme`).
    pub fn scheme(&self) -> (res: &str)
        ensures
            res@ == self.parts().1,
    {
        self.scheme.as_str()
    }

    /// The URL's host, if it has one (`Url::host_str`).
    pub fn host_str(&self) -> (res: Option<&str>)
        ensures
            match self.parts().2 {
                Some(h) => res matches Some(r) && r@ == h,
                None => res is None,
            },
    {
        match &self.host {
            Some(h) => Some(h.as_str()),
            None => None,
        }
    }

    /// The URL's explicit port, if it has one (`Url::port`).
    pub fn port(&self) -> (res: Option<u16>)
        ensures
            res == self.parts().3,
    {
        self.port
    }

    /// The URL's path (`Url::path`).
    pub fn path(&self) -> (res: &str)
        ensures
            res@ == self.parts().4,
    {
        self.path.as_str()
    }

    /// The `url::Url` that the parts were read from.
    pub closed spec fn url_value(self) -> url::Url {
        self.url
    }

    /// The `url::Url` itself.
    pub fn url(&self) -> (res: &url::Url)
        ensures
            *res == self.url_value(),
    {
        &self.url
    }

    /// The `url::Url` itself, by value.
    pub fn into_url(self) -> (res: url::Url)
        ensures
            res == self.url_value(),
    {
        self.url
    }
}

/// What `url::Url::parse` makes of `input`: on success the parts of the
/// URL, on failure the error's text.
pub uninterp spec fn url_parse_outcome(input: Seq<char>) -> std::result::Result<UrlParts, Seq<char>>;

/// Parses `input` with `url::Url::parse` and reads the parts of the URL
/// (`as_str`, `scheme`, `host_str`, `port`, `path`) or the error's `Display`
/// text.
/// Claimed: the outcome is a function of `input` alone, named
/// `url_parse_outcome`; what that function is (the WHATWG URL parser) is not
/// stated.
#[verifier::external_body]
pub(crate) fn parse_url(input: &str) -> (res: std::result::Result<ParsedUrl, UrlError>)
    ensures
        match res {
            Ok(p) => url_parse_outcome(input@) == Ok::<UrlParts, Seq<char>>(p.parts()),
            Err(e) => url_parse_outcome(input@) == Err::<UrlParts, Seq<char>>(e.text@),
        },
{
    match url::Url::parse(input) {
        Ok(url) => Ok(ParsedUrl {
            text: url.as_str().to_string(),
            scheme: url.scheme().to_string(),
            host: url.host_str().map(String::from),
            port: url.port(),
            path: url.path().to_string(),
            url,
        }),
        Err(e) => Err(UrlError { text: e.to_string(), error: e }),
    }
}

/// What `url::Url::set_path` makes of the URL serialized as `text` when its
/// path is set to `path`: the parts of the new URL.
pub uninterp spec fn url_with_path(text: Seq<char>, path: Seq<char>) -> UrlParts;

/// Sets the path of a parsed URL with `url::Url::set_path` and reads the
/// parts of the result.
/// Claimed: the result is a function of the URL's serialization and the
/// new path alone (a `Url` is its serialization and the offsets parsed from
/// it), named `url_with_path`; the scheme, host and port stay as they were
/// (`set_path` cuts the serialization at the start of the path, parses only
/// the new path there and puts the query and fragment back). For an `http`
/// or `https` URL whose path is set to its own path with the trailing
/// slashes stripped (`/` when nothing else is left), the new path is exactly
/// that: every segment kept was already parsed, so it is already
/// percent-encoded and is no dot segment, and `parse_path` copies it as it
/// is. How other paths are normalised is not stated.
#[verifier::external_body]
fn set_url_path(parsed: ParsedUrl, path: &str) -> (res: ParsedUrl)
    ensures
        res.parts() == url_with_path(parsed.parts().0, path@),
        res.parts().1 == parsed.parts().1,
        res.parts().2 == parsed.parts().2,
        res.parts().3 == parsed.parts().3,
        (parsed.parts().1 == "http"@ || parsed.parts().1 == "https"@) && path@ == normalized_path(parsed.parts().4)
            ==> res.parts().4 == path@,
{
    let mut url = parsed.url;
    url.set_path(path);
    ParsedUrl {
        text: url.as_str().to_string(),
        scheme: url.scheme().to_string(),
        host: url.host_str().map(String::from),
        port: url.port(),
        path: url.path().to_string(),
        url,
    }
}

/// Message for an input that does not parse as a URL.
pub open spec fn invalid_url_message(input: Seq<char>, error: Seq<char>) -> Seq<char> {
    "invalid homeserver URL '"@ + input + "': "@ + error
}

/// Message for a URL whose scheme is neither `http` nor `https`.
pub open spec fn unsupported_scheme_message(scheme: Seq<char>) -> Seq<char> {
    "unsupported URL scheme '"@ + scheme + "': expected http or https"@
}

/// Message for a URL without a host.
pub open spec fn missing_host_message(input: Seq<char>) -> Seq<char> {
    "homeserver URL '"@ + input + "' has no host"@
}

/// The configuration-error message that checking a homeserver URL gives,
/// from the outcome of parsing it; `None` when the URL is accepted.
pub open spec fn homeserver_url_problem(
    input: Seq<char>,
    outcome: std::result::Result<UrlParts, Seq<char>>,
) -> Option<Seq<char>> {
    match outcome {
        Err(e) => Some(invalid_url_message(input, e)),
        Ok(parts) => if !(parts.1 == "http"@ || parts.1 == "https"@) {
            Some(unsupported_scheme_message(parts.1))
        } else if parts.2 is None {
            Some(missing_host_message(input))
        } else {
            None
        },
    }
}

/// Which homeserver URLs are accepted: exactly those that parse with scheme
/// `http` or `https` and have a host, whatever the host is. The
/// unsupported-scheme error comes only for a scheme that is neither, and
/// the missing-host error only for a URL without a host.
pub proof fn lemma_homeserver_acceptance(input: Seq<char>, parts: UrlParts)
    ensures
        homeserver_url_problem(input, Ok(parts)) is None
            <==> ((parts.1 == "http"@ || parts.1 == "https"@) && parts.2 is Some),
        homeserver_url_problem(input, Ok(parts)) == Some(unsupported_scheme_message(parts.1))
            ==> !(parts.1 == "http"@ || parts.1 == "https"@),
        (parts.1 == "http"@ || parts.1 == "https"@) && parts.2 is None
            ==> homeserver_url_problem(input, Ok(parts)) == Some(missing_host_message(input)),
        !(parts.1 == "http"@ || parts.1 == "https"@)
            ==> homeserver_url_problem(input, Ok(parts)) == Some(unsupported_scheme_message(parts.1)),
{
    reveal_strlit("homeserver URL '");
    reveal_strlit("unsupported URL scheme '");
    assert(missing_host_message(input)[0] == 'h');
    assert(unsupported_scheme_message(parts.1)[0] == 'u');
}

/// `path` without its trailing `/` characters.
pub open spec fn strip_trailing_slashes(path: Seq<char>) -> Seq<char>
    decreases path.len(),
{
    if path.len() > 0 && path.last() == '/' {
        strip_trailing_slashes(path.drop_last())
    } else {
        path
    }
}

/// The path of an accepted homeserver URL: `path` without its trailing
/// slashes, or `/` when nothing else is left (an `http` or `https` URL
/// always has a path that starts with `/`).
pub open spec fn normalized_path(path: Seq<char>) -> Seq<char> {
    if strip_trailing_slashes(path).len() == 0 {
        seq!['/']
    } else {
        strip_trailing_slashes(path)
    }
}

/// What is left of a path once its trailing slashes are stripped ends in
/// no `/`.
proof fn lemma_stripped_has_no_trailing_slash(path: Seq<char>)
    ensures
        strip_trailing_slashes(path).len() > 0 ==> strip_trailing_slashes(path).last() != '/',
    decreases path.len(),
{
    if path.len() > 0 && path.last() == '/' {
        lemma_stripped_has_no_trailing_slash(path.drop_last());
    }
}

/// A normalized path is not empty, and it ends in `/` only when it is `/`.
pub proof fn lemma_normalized_path_has_no_trailing_slash(path: Seq<char>)
    ensures
        normalized_path(path).len() > 0,
        normalized_path(path) == seq!['/'] || normalized_path(path).last() != '/',
{
    lemma_stripped_has_no_trailing_slash(path);
}

/// The parts of an accepted homeserver URL once trailing slashes are
/// stripped from its path: unchanged when its path is already normalized,
/// else those of the URL with the normalized path.
pub open spec fn normalized_url(parts: UrlParts) -> UrlParts {
    if normalized_path(parts.4) == parts.4 {
        parts
    } else {
        url_with_path(parts.0, normalized_path(parts.4))
    }
}

/// `path` without its trailing `/` characters.
fn trim_trailing_slashes(path: &str) -> (res: String)
    ensures
        res@ == strip_trailing_slashes(path@),
{
    let cs = chars_of(path);
    let mut end: usize = cs.len();
    assert(cs@.subrange(0, end as int) =~= cs@);
    while end > 0 && cs[end - 1] == '/'
        invariant
            cs@ == path@,
            end <= cs.len(),
            strip_trailing_slashes(cs@.subrange(0, end as int)) == strip_trailing_slashes(path@),
        decreases end,
    {
        assert(cs@.subrange(0, end as int).drop_last() =~= cs@.subrange(0, end - 1));
        end -= 1;
    }
    let mut out = String::new();
    let mut k: usize = 0;
    while k < end
        invariant
            cs@ == path@,
            k <= end <= cs.len(),
            out@ == cs@.subrange(0, k as int),
        decreases end - k,
    {
        push_char(&mut out, cs[k]);
        assert(cs@.subrange(0, k + 1) =~= cs@.subrange(0, k as int).push(cs@[k as int]));
        k += 1;
    }
    out
}

/// Decide on a parsed homeserver URL: accept it when its scheme is `http`
/// or `https` and it has a host, with trailing slashes stripped from its
/// path; else give the configuration error.
pub fn check_homeserver_url(
    url_str: &str,
    parsed: std::result::Result<ParsedUrl, UrlError>,
) -> (res: Result<ParsedUrl>)
    ensures
        match parsed {
            Err(e) => res matches Err(ConstellationError::Config(m)) && m@ == invalid_url_message(url_str@, e.text@),
            Ok(p) => match homeserver_url_problem(url_str@, Ok(p.parts())) {
                Some(msg) => res matches Err(ConstellationError::Config(m)) && m@ == msg,
                None => res matches Ok(h) && h.parts() == normalized_url(p.parts())
                    && h.parts().1 == p.parts().1 && h.parts().2 == p.parts().2 && h.parts().3 == p.parts().3
                    && h.parts().4 == normalized_path(p.parts().4),
            },
        },
{
    match parsed {
        Err(e) => {
            let mut msg = String::from_str("invalid homeserver URL '");
            msg.append(url_str);
            msg.append("': ");
            msg.append(e.text.as_str());
            Err(ConstellationError::Config(msg))
        },
        Ok(p) => {
            if !(same_text(p.scheme(), "http") || same_text(p.scheme(), "https")) {
                let mut msg = String::from_str("unsupported URL scheme '");
                msg.append(p.scheme());
                msg.append("': expected http or https");
                return Err(ConstellationError::Config(msg));
            }
            if p.host_str().is_none() {
                let mut msg = String::from_str("homeserver URL '");
                msg.append(url_str);
                msg.append("' has no host");
                return Err(ConstellationError::Config(msg));
            }
            let mut stripped = trim_trailing_slashes(p.path());
            if stripped.as_str().unicode_len() == 0 {
                push_char(&mut stripped, '/');
                assert(stripped@ =~= seq!['/']);
            }
            if same_text(stripped.as_str(), p.path()) {
                Ok(p)
            } else {
                Ok(set_url_path(p, stripped.as_str()))
            }
        },
    }
}

/// Validate and normalize a homeserver URL.
///
/// Ensures the URL has a valid scheme (`http` or `https`) and a host, and
/// strips any trailing slashes from its path for consistency.
///
/// # Errors
///
/// Returns [`ConstellationError::Config`] if the URL does not parse, uses an
/// unsupported scheme, or has no host.
pub fn parse_homeserver_url(url_str: &str) -> (res: Result<ParsedUrl>)
    ensures
        match homeserver_url_problem(url_str@, url_parse_outcome(url_str@)) {
            Some(msg) => res matches Err(ConstellationError::Config(m)) && m@ == msg,
            None => res matches Ok(h) && url_parse_outcome(url_str@) matches Ok(parts)
                && h.parts() == normalized_url(parts) && h.parts().1 == parts.1 && h.parts().2 == parts.2
                && h.parts().3 == parts.3 && h.parts().4 == normalized_path(parts.4),
        },
{
    let parsed = parse_url(url_str);
    check_homeserver_url(url_str, parsed)
}

} // verus!
