//! Text helpers: error messages, member paths and prefixes.
use vstd::prelude::*;

verus! {

/// Name of the document format.
pub const SCHEMA_NAME: &'static str = "UEC";

/// First schema generation.
pub const SCHEMA_VERSION: &'static str = "1.0";

/// Second schema generation.
pub const SCHEMA_VERSION_V2: &'static str = "2.0";

/// The two schema generations are told apart by their first character.
pub proof fn lemma_versions_differ()
    ensures
        SCHEMA_VERSION@ != SCHEMA_VERSION_V2@,
{
    reveal_strlit("1.0");
    reveal_strlit("2.0");
    assert(SCHEMA_VERSION@[0] != SCHEMA_VERSION_V2@[0]);
}

/// Models of a list of strings.
pub open spec fn texts(v: Seq<String>) -> Seq<Seq<char>> {
    v.map_values(|s: String| s@)
}

/// One error message: the path, a colon, and what is wrong there.
pub open spec fn error_text(path: Seq<char>, message: Seq<char>) -> Seq<char> {
    path + ": "@ + message
}

/// Whether `version` names one of the two schema generations.
pub open spec fn is_known_version(version: Seq<char>) -> bool {
    version == SCHEMA_VERSION@ || version == SCHEMA_VERSION_V2@
}

/// The decimal digit `d`, as text.
pub open spec fn digit_text(d: nat) -> Seq<char> {
    if d == 0 {
        "0"@
    } else if d == 1 {
        "1"@
    } else if d == 2 {
        "2"@
    } else if d == 3 {
        "3"@
    } else if d == 4 {
        "4"@
    } else if d == 5 {
        "5"@
    } else if d == 6 {
        "6"@
    } else if d == 7 {
        "7"@
    } else if d == 8 {
        "8"@
    } else {
        "9"@
    }
}

/// The decimal numeral of `n`, without leading zeros.
pub open spec fn decimal(n: nat) -> Seq<char>
    decreases n,
{
    if n < 10 {
        digit_text(n)
    } else {
        decimal(n / 10) + digit_text(n % 10)
    }
}

/// The path of element `i` under `path`.
pub open spec fn index_path(path: Seq<char>, i: nat) -> Seq<char> {
    path + "["@ + decimal(i) + "]"@
}

/// The path of member `key` under `path`; the root path is empty.
pub open spec fn key_path(path: Seq<char>, key: Seq<char>) -> Seq<char> {
    if path.len() == 0 {
        key
    } else {
        path + "."@ + key
    }
}

/// Whether `s` begins with `p`.
pub open spec fn starts_with(s: Seq<char>, p: Seq<char>) -> bool {
    p.len() <= s.len() && s.subrange(0, p.len() as int) == p
}

pub fn push_error(errors: &mut Vec<String>, path: &str, message: &str)
    ensures
        texts(final(errors)@) == texts(old(errors)@).push(error_text(path@, message@)),
{
    let e = String::from_str(path).concat(": ").concat(message);
    errors.push(e);
    assert(texts(errors@) =~= texts(old(errors)@).push(error_text(path@, message@)));
}

pub fn known_version(version: &str) -> (r: bool)
    ensures
        r == is_known_version(version@),
{
    let v = version.to_owned();
    v == SCHEMA_VERSION.to_owned() || v == SCHEMA_VERSION_V2.to_owned()
}

/// `a` followed by `b`.
pub fn join(a: &str, b: &str) -> (r: String)
    ensures
        r@ == a@ + b@,
{
    String::from_str(a).concat(b)
}

/// Whether `s` equals `t`.
pub fn text_is(s: &String, t: &str) -> (r: bool)
    ensures
        r == (s@ == t@),
{
    *s == t.to_owned()
}

fn digit(d: usize) -> (r: &'static str)
    requires
        d < 10,
    ensures
        r@ == digit_text(d as nat),
{
    if d == 0 {
        "0"
    } else if d == 1 {
        "1"
    } else if d == 2 {
        "2"
    } else if d == 3 {
        "3"
    } else if d == 4 {
        "4"
    } else if d == 5 {
        "5"
    } else if d == 6 {
        "6"
    } else if d == 7 {
        "7"
    } else if d == 8 {
        "8"
    } else {
        "9"
    }
}

/// The decimal numeral of `n`.
pub fn decimal_text(n: usize) -> (r: String)
    ensures
        r@ == decimal(n as nat),
    decreases n,
{
    if n < 10 {
        String::from_str(digit(n))
    } else {
        decimal_text(n / 10).concat(digit(n % 10))
    }
}

/// The path of element `i` under `path`.
pub fn index_path_text(path: &str, i: usize) -> (r: String)
    ensures
        r@ == index_path(path@, i as nat),
{
    let d = decimal_text(i);
    String::from_str(path).concat("[").concat(d.as_str()).concat("]")
}

/// The path of member `key` under `path`.
pub fn key_path_text(path: &str, key: &str) -> (r: String)
    ensures
        r@ == key_path(path@, key@),
{
    if path.unicode_len() == 0 {
        key.to_owned()
    } else {
        String::from_str(path).concat(".").concat(key)
    }
}

/// Whether `s` begins with `p`.
pub fn has_prefix(s: &str, p: &str) -> (r: bool)
    ensures
        r == starts_with(s@, p@),
{
    let n = s.unicode_len();
    let m = p.unicode_len();
    if m > n {
        return false;
    }
    let mut i: usize = 0;
    while i < m
        invariant
            m == p@.len(),
            n == s@.len(),
            m <= n,
            i <= m,
            forall|j: int| 0 <= j < i ==> s@[j] == p@[j],
        decreases m - i,
    {
        if s.get_char(i) != p.get_char(i) {
            assert(s@.subrange(0, m as int)[i as int] != p@[i as int]);
            return false;
        }
        i += 1;
    }
    assert(s@.subrange(0, m as int) =~= p@);
    true
}

/// What follows the prefix `p` in `s`.
pub fn after_prefix(s: &str, p: &str) -> (r: String)
    requires
        starts_with(s@, p@),
    ensures
        r@ == s@.subrange(p@.len() as int, s@.len() as int),
{
    let n = s.unicode_len();
    let m = p.unicode_len();
    s.substring_char(m, n).to_owned()
}

/// Whether `c` has the Unicode White_Space property.
pub open spec fn is_white(c: char) -> bool {
    let u = c as u32;
    (9 <= u <= 13) || u == 32 || u == 0x85 || u == 0xA0 || u == 0x1680 || (0x2000 <= u <= 0x200A)
        || u == 0x2028 || u == 0x2029 || u == 0x202F || u == 0x205F || u == 0x3000
}

/// Nothing but white space (an empty text included).
pub open spec fn all_white(s: Seq<char>) -> bool {
    forall|j: int| 0 <= j < s.len() ==> is_white(#[trigger] s[j])
}

/// Whether `s` holds nothing but white space.
pub fn is_blank(s: &str) -> (r: bool)
    ensures
        r == all_white(s@),
{
    let n = s.unicode_len();
    let mut i: usize = 0;
    while i < n
        invariant
            n == s@.len(),
            i <= n,
            forall|j: int| 0 <= j < i ==> is_white(#[trigger] s@[j]),
        decreases n - i,
    {
        let c = s.get_char(i);
        let u = c as u32;
        let w = (9 <= u && u <= 13) || u == 32 || u == 0x85 || u == 0xA0 || u == 0x1680 || (0x2000
            <= u && u <= 0x200A) || u == 0x2028 || u == 0x2029 || u == 0x202F || u == 0x205F || u
            == 0x3000;
        if !w {
            return false;
        }
        i += 1;
    }
    true
}

} // verus!
