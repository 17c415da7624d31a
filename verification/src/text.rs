//! Character-level text helpers with their specifications.
use vstd::prelude::*;
use vstd::string::StringExecFns;
use vstd::string::StrSliceExecFns;

verus! {

/// Appends one character to a `String` with std `String::push`.
/// Trusted: the new text is the old text followed by `c`.
#[verifier::external_body]
pub(crate) fn push_char(s: &mut String, c: char)
    ensures
        final(s)@ == old(s)@.push(c),
{
    s.push(c)
}

/// What `String::from_utf8_lossy` makes of a byte sequence.
pub uninterp spec fn lossy_utf8(bytes: Seq<u8>) -> Seq<char>;

/// Decodes bytes as UTF-8 with std `String::from_utf8_lossy`, replacing invalid
/// sequences. Trusted: the result is named by `lossy_utf8`, and valid UTF-8 is
/// decoded unchanged, as the std documentation states.
#[verifier::external_body]
pub(crate) fn lossy_text(bytes: &[u8]) -> (r: String)
    ensures
        r@ == lossy_utf8(bytes@),
        vstd::utf8::valid_utf8(bytes@) ==> r@ == vstd::utf8::decode_utf8(bytes@),
{
    String::from_utf8_lossy(bytes).into_owned()
}

/// The texts of a sequence of strings.
pub open spec fn texts(v: Seq<String>) -> Seq<Seq<char>> {
    v.map_values(|s: String| s@)
}

/// Pushing a string onto a list pushes its text.
pub proof fn lemma_texts_push(v: Seq<String>, s: String)
    ensures
        texts(v.push(s)) == texts(v).push(s@),
{
    assert(texts(v.push(s)) =~= texts(v).push(s@));
}

/// Appends a string to a list of strings, tracking the texts.
pub fn push_text(v: &mut Vec<String>, s: String)
    ensures
        texts(final(v)@) == texts(old(v)@).push(s@),
{
    proof {
        lemma_texts_push(v@, s);
    }
    v.push(s);
}

/// Appends a string slice.
pub fn push_str(s: &mut String, t: &str)
    ensures
        final(s)@ == old(s)@ + t@,
{
    s.append(t);
}

/// The characters of a string slice, in order.
pub fn chars_of(s: &str) -> (v: Vec<char>)
    ensures
        v@ == s@,
{
    let n = s.unicode_len();
    let mut v: Vec<char> = Vec::new();
    let mut i: usize = 0;
    while i < n
        invariant
            n == s@.len(),
            i <= n,
            v@ == s@.subrange(0, i as int),
        decreases n - i,
    {
        let c = s.get_char(i);
        v.push(c);
        i = i + 1;
        assert(v@ =~= s@.subrange(0, i as int));
    }
    assert(v@ =~= s@);
    v
}

/// A string holding exactly the given characters.
pub fn string_of(cs: &[char]) -> (s: String)
    ensures
        s@ == cs@,
{
    let mut s = String::new();
    let mut i: usize = 0;
    while i < cs.len()
        invariant
            i <= cs@.len(),
            s@ == cs@.subrange(0, i as int),
        decreases cs@.len() - i,
    {
        push_char(&mut s, cs[i]);
        i = i + 1;
        assert(s@ =~= cs@.subrange(0, i as int));
    }
    assert(s@ =~= cs@);
    s
}

/// Concatenation of two texts.
pub fn concat2(a: &str, b: &str) -> (s: String)
    ensures
        s@ == a@ + b@,
{
    let mut s = String::from_str(a);
    push_str(&mut s, b);
    s
}

/// Concatenation of three texts.
pub fn concat3(a: &str, b: &str, c: &str) -> (s: String)
    ensures
        s@ == a@ + b@ + c@,
{
    let mut s = String::from_str(a);
    push_str(&mut s, b);
    push_str(&mut s, c);
    s
}

/// The ASCII digit character for a value below ten.
pub open spec fn digit_char(d: nat) -> char {
    if d == 0 { '0' }
    else if d == 1 { '1' }
    else if d == 2 { '2' }
    else if d == 3 { '3' }
    else if d == 4 { '4' }
    else if d == 5 { '5' }
    else if d == 6 { '6' }
    else if d == 7 { '7' }
    else if d == 8 { '8' }
    else { '9' }
}

/// The decimal representation of a natural number, without leading zeros.
pub open spec fn decimal(n: nat) -> Seq<char>
    decreases n,
{
    if n < 10 {
        seq![digit_char(n)]
    } else {
        decimal(n / 10).push(digit_char(n % 10))
    }
}

fn digit_of(d: u64) -> (c: char)
    requires
        d < 10,
    ensures
        c == digit_char(d as nat),
{
    if d == 0 { '0' }
    else if d == 1 { '1' }
    else if d == 2 { '2' }
    else if d == 3 { '3' }
    else if d == 4 { '4' }
    else if d == 5 { '5' }
    else if d == 6 { '6' }
    else if d == 7 { '7' }
    else if d == 8 { '8' }
    else { '9' }
}

/// Appends the decimal representation of `n`.
pub fn push_decimal(s: &mut String, n: u64)
    ensures
        final(s)@ == old(s)@ + decimal(n as nat),
    decreases n,
{
    if n >= 10 {
        push_decimal(s, n / 10);
    }
    let c = digit_of(n % 10);
    push_char(s, c);
    assert(final(s)@ =~= old(s)@ + decimal(n as nat));
}

/// The decimal representation of `n` as a new string.
pub fn decimal_string(n: u64) -> (s: String)
    ensures
        s@ == decimal(n as nat),
{
    let mut s = String::new();
    push_decimal(&mut s, n);
    assert(s@ =~= decimal(n as nat));
    s
}

/// A hexadecimal digit character, uppercase when `upper`.
pub open spec fn hex_char(d: nat, upper: bool) -> char {
    if d < 10 {
        digit_char(d)
    } else if upper {
        if d == 10 { 'A' } else if d == 11 { 'B' } else if d == 12 { 'C' } else if d == 13 { 'D' } else if d == 14 { 'E' } else { 'F' }
    } else {
        if d == 10 { 'a' } else if d == 11 { 'b' } else if d == 12 { 'c' } else if d == 13 { 'd' } else if d == 14 { 'e' } else { 'f' }
    }
}

/// The two hexadecimal digits of a byte, most significant first.
pub open spec fn hex2(x: u8, upper: bool) -> Seq<char> {
    seq![hex_char((x / 16) as nat, upper), hex_char((x % 16) as nat, upper)]
}

/// The hexadecimal text of a byte sequence, two digits per byte.
pub open spec fn hex_text(b: Seq<u8>, upper: bool) -> Seq<char>
    decreases b.len(),
{
    if b.len() == 0 {
        seq![]
    } else {
        hex_text(b.drop_last(), upper) + hex2(b.last(), upper)
    }
}

fn hex_digit(d: u8, upper: bool) -> (c: char)
    requires
        d < 16,
    ensures
        c == hex_char(d as nat, upper),
{
    if d < 10 {
        digit_of(d as u64)
    } else if upper {
        if d == 10 { 'A' } else if d == 11 { 'B' } else if d == 12 { 'C' } else if d == 13 { 'D' } else if d == 14 { 'E' } else { 'F' }
    } else {
        if d == 10 { 'a' } else if d == 11 { 'b' } else if d == 12 { 'c' } else if d == 13 { 'd' } else if d == 14 { 'e' } else { 'f' }
    }
}

/// Appends the two hexadecimal digits of a byte.
pub fn push_hex2(s: &mut String, x: u8, upper: bool)
    ensures
        final(s)@ == old(s)@ + hex2(x, upper),
{
    push_char(s, hex_digit(x / 16, upper));
    push_char(s, hex_digit(x % 16, upper));
    assert(final(s)@ =~= old(s)@ + hex2(x, upper));
}

/// The hexadecimal text of a byte sequence.
pub fn hex_string(b: &[u8], upper: bool) -> (s: String)
    ensures
        s@ == hex_text(b@, upper),
{
    let mut s = String::new();
    let mut i: usize = 0;
    while i < b.len()
        invariant
            i <= b@.len(),
            s@ == hex_text(b@.subrange(0, i as int), upper),
        decreases b@.len() - i,
    {
        push_hex2(&mut s, b[i], upper);
        proof {
            let prefix = b@.subrange(0, i + 1);
            assert(prefix.drop_last() =~= b@.subrange(0, i as int));
        }
        i = i + 1;
    }
    assert(b@.subrange(0, b@.len() as int) =~= b@);
    s
}

/// Unicode `White_Space` characters, as tested by `char::is_whitespace`.
pub open spec fn is_space(c: char) -> bool {
    let v = c as u32;
    (0x09 <= v <= 0x0d) || v == 0x20 || v == 0x85 || v == 0xa0 || v == 0x1680
        || (0x2000 <= v <= 0x200a) || v == 0x2028 || v == 0x2029 || v == 0x202f
        || v == 0x205f || v == 0x3000
}

/// Whether `c` is Unicode whitespace.
pub fn char_is_space(c: char) -> (b: bool)
    ensures
        b == is_space(c),
{
    let v = c as u32;
    (0x09 <= v && v <= 0x0d) || v == 0x20 || v == 0x85 || v == 0xa0 || v == 0x1680
        || (0x2000 <= v && v <= 0x200a) || v == 0x2028 || v == 0x2029 || v == 0x202f
        || v == 0x205f || v == 0x3000
}

/// Text with leading whitespace removed.
pub open spec fn trim_start(s: Seq<char>) -> Seq<char>
    decreases s.len(),
{
    if s.len() > 0 && is_space(s[0]) {
        trim_start(s.drop_first())
    } else {
        s
    }
}

/// Text with trailing whitespace removed.
pub open spec fn trim_end(s: Seq<char>) -> Seq<char>
    decreases s.len(),
{
    if s.len() > 0 && is_space(s.last()) {
        trim_end(s.drop_last())
    } else {
        s
    }
}

/// Text with leading and trailing whitespace removed (`str::trim`).
pub open spec fn trim(s: Seq<char>) -> Seq<char> {
    trim_end(trim_start(s))
}

proof fn lemma_trim_start_skip(s: Seq<char>, i: int)
    requires
        0 <= i <= s.len(),
        forall|j: int| 0 <= j < i ==> is_space(#[trigger] s[j]),
    ensures
        trim_start(s) == trim_start(s.subrange(i, s.len() as int)),
    decreases i,
{
    if i > 0 {
        assert(s.drop_first() =~= s.subrange(1, s.len() as int));
        let t = s.drop_first();
        assert forall|j: int| 0 <= j < i - 1 implies is_space(#[trigger] t[j]) by {
            assert(t[j] == s[j + 1]);
        }
        lemma_trim_start_skip(t, i - 1);
        assert(t.subrange(i - 1, t.len() as int) =~= s.subrange(i, s.len() as int));
    } else {
        assert(s.subrange(0, s.len() as int) =~= s);
    }
}

proof fn lemma_trim_end_skip(s: Seq<char>, k: int)
    requires
        0 <= k <= s.len(),
        forall|j: int| k <= j < s.len() ==> is_space(#[trigger] s[j]),
    ensures
        trim_end(s) == trim_end(s.subrange(0, k)),
    decreases s.len() - k,
{
    if k < s.len() {
        let t = s.drop_last();
        assert forall|j: int| k <= j < t.len() implies is_space(#[trigger] t[j]) by {
            assert(t[j] == s[j]);
        }
        lemma_trim_end_skip(t, k);
        assert(t.subrange(0, k) =~= s.subrange(0, k));
    } else {
        assert(s.subrange(0, k) =~= s);
    }
}

/// `str::trim`: the text without leading and trailing whitespace.
pub fn trim_str(s: &str) -> (r: String)
    ensures
        r@ == trim(s@),
{
    let cs = chars_of(s);
    let n = cs.len();
    let mut i: usize = 0;
    while i < n && char_is_space(cs[i])
        invariant
            n == cs@.len(),
            i <= n,
            forall|j: int| 0 <= j < i ==> is_space(#[trigger] cs@[j]),
        decreases n - i,
    {
        i = i + 1;
    }
    proof {
        lemma_trim_start_skip(cs@, i as int);
    }
    let ghost rest = cs@.subrange(i as int, n as int);
    assert(i < n ==> !is_space(rest[0]));
    assert(trim_start(rest) == rest);
    let mut k: usize = n;
    while k > i && char_is_space(cs[k - 1])
        invariant
            n == cs@.len(),
            i <= k <= n,
            forall|j: int| k <= j < n ==> is_space(#[trigger] cs@[j]),
        decreases k,
    {
        k = k - 1;
    }
    proof {
        let r0 = rest;
        assert forall|j: int| (k - i) <= j < r0.len() implies is_space(#[trigger] r0[j]) by {
            assert(r0[j] == cs@[j + i]);
        }
        lemma_trim_end_skip(r0, (k - i) as int);
        let r1 = r0.subrange(0, (k - i) as int);
        assert(r1 =~= cs@.subrange(i as int, k as int));
        if r1.len() > 0 {
            assert(r1.last() == cs@[k - 1]);
        }
        assert(trim_end(r1) == r1);
    }
    let mut out = String::new();
    let mut j: usize = i;
    while j < k
        invariant
            n == cs@.len(),
            i <= j <= k <= n,
            out@ == cs@.subrange(i as int, j as int),
        decreases k - j,
    {
        push_char(&mut out, cs[j]);
        j = j + 1;
        assert(out@ =~= cs@.subrange(i as int, j as int));
    }
    out
}

/// The ASCII lowercase form of one character (`char::to_ascii_lowercase`).
pub open spec fn lower_char(c: char) -> char {
    if 65 <= (c as u32) <= 90 {
        ((c as u32) + 32) as char
    } else {
        c
    }
}

/// ASCII lowercase of a text (`str::to_ascii_lowercase`).
pub open spec fn lower(s: Seq<char>) -> Seq<char> {
    s.map_values(|c: char| lower_char(c))
}

/// ASCII lowercase of one character.
pub fn char_lower(c: char) -> (r: char)
    ensures
        r == lower_char(c),
{
    if 'A' <= c && c <= 'Z' {
        let b = c as u8;
        let r = (b + 32) as char;
        assert(r == ((c as u32) + 32) as char);
        r
    } else {
        c
    }
}

/// ASCII lowercase of a text.
pub fn lower_chars(s: &[char]) -> (r: Vec<char>)
    ensures
        r@ == lower(s@),
{
    let mut r: Vec<char> = Vec::new();
    let mut i: usize = 0;
    while i < s.len()
        invariant
            i <= s@.len(),
            r@ == lower(s@.subrange(0, i as int)),
        decreases s@.len() - i,
    {
        let c = char_lower(s[i]);
        r.push(c);
        i = i + 1;
        assert(r@ =~= lower(s@.subrange(0, i as int)));
    }
    assert(s@.subrange(0, s@.len() as int) =~= s@);
    r
}

/// Whether two character sequences are equal.
pub fn chars_eq(a: &[char], b: &[char]) -> (r: bool)
    ensures
        r == (a@ == b@),
{
    if a.len() != b.len() {
        return false;
    }
    let mut i: usize = 0;
    while i < a.len()
        invariant
            a@.len() == b@.len(),
            i <= a@.len(),
            forall|j: int| 0 <= j < i ==> a@[j] == b@[j],
        decreases a@.len() - i,
    {
        if a[i] != b[i] {
            return false;
        }
        i = i + 1;
    }
    assert(a@ =~= b@);
    true
}

/// Whether a character sequence equals a string slice.
pub fn chars_eq_str(a: &[char], b: &str) -> (r: bool)
    ensures
        r == (a@ == b@),
{
    let bv = chars_of(b);
    chars_eq(a, bv.as_slice())
}

/// Whether `s` ends with `suffix`.
pub open spec fn ends_with(s: Seq<char>, suffix: Seq<char>) -> bool {
    suffix.len() <= s.len() && s.subrange(s.len() - suffix.len(), s.len() as int) == suffix
}

/// Whether `s` starts with `prefix`.
pub open spec fn starts_with(s: Seq<char>, prefix: Seq<char>) -> bool {
    prefix.len() <= s.len() && s.subrange(0, prefix.len() as int) == prefix
}

/// Whether the characters end with the given suffix.
pub fn chars_end_with(s: &[char], suffix: &str) -> (r: bool)
    ensures
        r == ends_with(s@, suffix@),
{
    let t = chars_of(suffix);
    if t.len() > s.len() {
        return false;
    }
    let slen = s.len();
    let off = slen - t.len();
    let mut i: usize = 0;
    while i < t.len()
        invariant
            slen == s@.len(),
            t@ == suffix@,
            off + t@.len() == s@.len(),
            i <= t@.len(),
            forall|j: int| 0 <= j < i ==> s@[off + j] == t@[j],
        decreases t@.len() - i,
    {
        if s[off + i] != t[i] {
            let ghost sub = s@.subrange(off as int, s@.len() as int);
            assert(sub[i as int] == s@[off + i]);
            assert(sub != t@);
            return false;
        }
        i = i + 1;
    }
    assert(s@.subrange(off as int, s@.len() as int) =~= t@);
    true
}

/// Whether the characters start with the given prefix.
pub fn chars_start_with(s: &[char], prefix: &str) -> (r: bool)
    ensures
        r == starts_with(s@, prefix@),
{
    let t = chars_of(prefix);
    if t.len() > s.len() {
        return false;
    }
    let mut i: usize = 0;
    while i < t.len()
        invariant
            t@.len() <= s@.len(),
            t@ == prefix@,
            i <= t@.len(),
            forall|j: int| 0 <= j < i ==> s@[j] == t@[j],
        decreases t@.len() - i,
    {
        if s[i] != t[i] {
            let ghost sub = s@.subrange(0, t@.len() as int);
            assert(sub[i as int] == s@[i as int]);
            assert(sub != t@);
            return false;
        }
        i = i + 1;
    }
    assert(s@.subrange(0, t@.len() as int) =~= t@);
    true
}

/// Whether two texts are equal.
pub fn text_is(a: &str, b: &str) -> (r: bool)
    ensures
        r == (a@ == b@),
{
    let av = chars_of(a);
    chars_eq_str(av.as_slice(), b)
}

/// A copy of a static text as an owned string.
pub fn owned(s: &str) -> (r: String)
    ensures
        r@ == s@,
{
    String::from_str(s)
}

/// A copy of an optional string.
pub fn clone_opt(s: &Option<String>) -> (r: Option<String>)
    ensures
        r == *s,
{
    match s {
        Some(v) => Some(v.clone()),
        None => None,
    }
}

/// The texts joined with a separator between neighbours.
pub open spec fn joined(v: Seq<Seq<char>>, sep: Seq<char>) -> Seq<char>
    decreases v.len(),
{
    if v.len() == 0 {
        seq![]
    } else if v.len() == 1 {
        v[0]
    } else {
        joined(v.drop_last(), sep) + sep + v.last()
    }
}

/// Joins strings with a separator (`[String]::join`).
pub fn join_texts(v: &Vec<String>, sep: &str) -> (r: String)
    ensures
        r@ == joined(texts(v@), sep@),
{
    let mut r = String::new();
    let mut i: usize = 0;
    while i < v.len()
        invariant
            i <= v@.len(),
            r@ == joined(texts(v@.subrange(0, i as int)), sep@),
        decreases v@.len() - i,
    {
        if i > 0 {
            push_str(&mut r, sep);
        }
        push_str(&mut r, v[i].as_str());
        proof {
            let pre = texts(v@.subrange(0, i + 1));
            assert(pre.drop_last() =~= texts(v@.subrange(0, i as int)));
            assert(pre.last() == v@[i as int]@);
            if i == 0 {
                assert(r@ =~= joined(pre, sep@));
            }
        }
        i = i + 1;
    }
    assert(v@.subrange(0, v@.len() as int) =~= v@);
    r
}

/// ASCII-case-insensitive equality (`str::eq_ignore_ascii_case`).
pub fn eq_ignore_ascii_case(a: &str, b: &str) -> (r: bool)
    ensures
        r == (lower(a@) == lower(b@)),
{
    let av = chars_of(a);
    let bv = chars_of(b);
    let al = lower_chars(av.as_slice());
    let bl = lower_chars(bv.as_slice());
    chars_eq(al.as_slice(), bl.as_slice())
}

/// An ASCII hexadecimal digit.
pub open spec fn is_hex_digit(c: char) -> bool {
    ('0' <= c && c <= '9') || ('a' <= c && c <= 'f') || ('A' <= c && c <= 'F')
}

/// Whether every character is an ASCII hexadecimal digit.
pub fn all_hex(s: &[char]) -> (r: bool)
    ensures
        r == (forall|i: int| 0 <= i < s@.len() ==> is_hex_digit(#[trigger] s@[i])),
{
    let mut i: usize = 0;
    while i < s.len()
        invariant
            i <= s@.len(),
            forall|j: int| 0 <= j < i ==> is_hex_digit(#[trigger] s@[j]),
        decreases s@.len() - i,
    {
        let c = s[i];
        if !(('0' <= c && c <= '9') || ('a' <= c && c <= 'f') || ('A' <= c && c <= 'F')) {
            assert(!is_hex_digit(s@[i as int]));
            return false;
        }
        i = i + 1;
    }
    true
}

/// Text without one trailing carriage return.
pub open spec fn strip_cr(s: Seq<char>) -> Seq<char> {
    if s.len() > 0 && s.last() == '\r' { s.drop_last() } else { s }
}

/// The index of the first occurrence of `c` at or after `from`, or the length.
pub open spec fn find_char(s: Seq<char>, c: char, from: int) -> int
    decreases s.len() - from,
{
    if from >= s.len() {
        s.len() as int
    } else if s[from] == c {
        from
    } else {
        find_char(s, c, from + 1)
    }
}

/// The lines of a text (`str::lines`): split at line feeds, without a final
/// empty line, each line without a trailing carriage return.
pub open spec fn split_lines(s: Seq<char>) -> Seq<Seq<char>>
    decreases s.len(),
{
    if s.len() == 0 {
        seq![]
    } else {
        let k = find_char(s, '\n', 0);
        if k >= s.len() {
            seq![strip_cr(s)]
        } else {
            proof {
                lemma_find_char_bounds(s, '\n', 0);
            }
            seq![strip_cr(s.subrange(0, k))] + split_lines(s.subrange(k + 1, s.len() as int))
        }
    }
}

pub proof fn lemma_find_char_bounds(s: Seq<char>, c: char, from: int)
    requires
        0 <= from,
    ensures
        from <= find_char(s, c, from) <= s.len() || (from > s.len() && find_char(s, c, from) == s.len()),
        find_char(s, c, from) < s.len() ==> s[find_char(s, c, from)] == c,
        forall|j: int| from <= j < find_char(s, c, from) ==> s[j] != c,
    decreases s.len() - from,
{
    if from < s.len() && s[from] != c {
        lemma_find_char_bounds(s, c, from + 1);
    }
}

fn find_char_exec(s: &[char], c: char, from: usize) -> (k: usize)
    requires
        from <= s@.len(),
    ensures
        k == find_char(s@, c, from as int),
{
    let mut i = from;
    while i < s.len() && s[i] != c
        invariant
            from <= i <= s@.len(),
            find_char(s@, c, i as int) == find_char(s@, c, from as int),
        decreases s@.len() - i,
    {
        i = i + 1;
    }
    i
}

fn strip_cr_exec(s: &[char]) -> (r: Vec<char>)
    ensures
        r@ == strip_cr(s@),
{
    let n = s.len();
    let end = if n > 0 && s[n - 1] == '\r' { n - 1 } else { n };
    let mut r: Vec<char> = Vec::new();
    let mut i: usize = 0;
    while i < end
        invariant
            end <= s@.len(),
            i <= end,
            r@ == s@.subrange(0, i as int),
        decreases end - i,
    {
        r.push(s[i]);
        i = i + 1;
        assert(r@ =~= s@.subrange(0, i as int));
    }
    assert(r@ =~= strip_cr(s@));
    r
}

/// The lines of a text.
pub fn lines_of(s: &str) -> (r: Vec<Vec<char>>)
    ensures
        r@.len() == split_lines(s@).len(),
        forall|i: int| 0 <= i < r@.len() ==> (#[trigger] r@[i])@ == split_lines(s@)[i],
{
    let cs = chars_of(s);
    let n = cs.len();
    let mut out: Vec<Vec<char>> = Vec::new();
    let mut start: usize = 0;
    assert(cs@.subrange(0, n as int) =~= cs@);
    while start < n
        invariant
            n == cs@.len(),
            start <= n,
            forall|i: int| 0 <= i < out@.len() ==> (#[trigger] out@[i])@ == split_lines(cs@)[i],
            split_lines(cs@) == out@.map_values(|v: Vec<char>| v@) + split_lines(cs@.subrange(start as int, n as int)),
        decreases n - start,
    {
        let ghost rest = cs@.subrange(start as int, n as int);
        let k = find_char_exec(cs.as_slice(), '\n', start);
        proof {
            lemma_find_char_bounds(cs@, '\n', start as int);
            lemma_find_char_bounds(rest, '\n', 0);
            lemma_find_shift(cs@, '\n', start as int);
        }
        if k >= n {
            let line = strip_cr_exec(vstd::slice::slice_subrange(cs.as_slice(), start, n));
            proof {
                assert(cs@.subrange(start as int, n as int) =~= rest);
                assert(split_lines(rest) == seq![strip_cr(rest)]);
                let ghost old_out = out@.map_values(|v: Vec<char>| v@);
                assert(old_out.push(line@) =~= out@.push(line).map_values(|v: Vec<char>| v@));
            }
            out.push(line);
            start = n;
            proof {
                let e = cs@.subrange(n as int, n as int);
                assert(e.len() == 0);
                assert(split_lines(e) =~= Seq::<Seq<char>>::empty());
            }
        } else {
            let line = strip_cr_exec(vstd::slice::slice_subrange(cs.as_slice(), start, k));
            proof {
                let kk = k - start;
                assert(rest.subrange(0, kk as int) =~= cs@.subrange(start as int, k as int));
                assert(rest.subrange(kk + 1, rest.len() as int) =~= cs@.subrange(k + 1, n as int));
                assert(split_lines(rest) == seq![strip_cr(rest.subrange(0, kk as int))] + split_lines(rest.subrange(kk + 1, rest.len() as int)));
                let ghost old_out = out@.map_values(|v: Vec<char>| v@);
                assert(old_out.push(line@) =~= out@.push(line).map_values(|v: Vec<char>| v@));
                assert(old_out + split_lines(rest) =~= old_out.push(line@) + split_lines(cs@.subrange(k + 1, n as int)));
            }
            out.push(line);
            start = k + 1;
        }
    }
    proof {
        let e = cs@.subrange(n as int, n as int);
        assert(split_lines(e) =~= Seq::<Seq<char>>::empty());
        assert(split_lines(cs@) =~= out@.map_values(|v: Vec<char>| v@));
    }
    out
}

proof fn lemma_find_shift(s: Seq<char>, c: char, start: int)
    requires
        0 <= start <= s.len(),
    ensures
        find_char(s.subrange(start, s.len() as int), c, 0) == find_char(s, c, start) - start,
    decreases s.len() - start,
{
    let t = s.subrange(start, s.len() as int);
    lemma_find_shift_gen(s, c, start, start);
}

proof fn lemma_find_shift_gen(s: Seq<char>, c: char, start: int, from: int)
    requires
        0 <= start <= from <= s.len(),
    ensures
        find_char(s.subrange(start, s.len() as int), c, from - start) == find_char(s, c, from) - start,
    decreases s.len() - from,
{
    let t = s.subrange(start, s.len() as int);
    if from < s.len() {
        assert(t[from - start] == s[from]);
        if s[from] != c {
            lemma_find_shift_gen(s, c, start, from + 1);
        }
    }
}

/// Two optional texts are equal.
pub open spec fn opt_text_eq(a: Option<String>, b: Option<String>) -> bool {
    match (a, b) {
        (Some(x), Some(y)) => x@ == y@,
        (None, None) => true,
        _ => false,
    }
}

/// Whether two optional texts are equal.
pub fn opt_eq(a: &Option<String>, b: &Option<String>) -> (r: bool)
    ensures
        r == opt_text_eq(*a, *b),
{
    match (a, b) {
        (Some(x), Some(y)) => text_is(x.as_str(), y.as_str()),
        (None, None) => true,
        _ => false,
    }
}


/// Whether a list of strings holds the text `t`.
pub fn has_text(v: &Vec<String>, t: &str) -> (b: bool)
    ensures
        b == texts(v@).contains(t@),
{
    let mut i: usize = 0;
    while i < v.len()
        invariant
            i <= v@.len(),
            forall|k: int| 0 <= k < i ==> (#[trigger] v@[k])@ != t@,
        decreases v@.len() - i,
    {
        if text_is(v[i].as_str(), t) {
            assert(texts(v@)[i as int] == t@);
            return true;
        }
        i = i + 1;
    }
    assert forall|k: int| 0 <= k < texts(v@).len() implies texts(v@)[k] != t@ by {
        assert(texts(v@)[k] == v@[k]@);
    }
    false
}

/// Whether every text of `a` occurs in `b`.
fn texts_within(a: &Vec<String>, b: &Vec<String>) -> (r: bool)
    ensures
        r == (forall|x: Seq<char>| texts(a@).contains(x) ==> texts(b@).contains(x)),
{
    let mut i: usize = 0;
    while i < a.len()
        invariant
            i <= a@.len(),
            forall|k: int| 0 <= k < i ==> texts(b@).contains(#[trigger] texts(a@)[k]),
        decreases a@.len() - i,
    {
        if !has_text(b, a[i].as_str()) {
            assert(texts(a@)[i as int] == a@[i as int]@);
            assert(texts(a@).contains(a@[i as int]@));
            return false;
        }
        assert(texts(a@)[i as int] == a@[i as int]@);
        i = i + 1;
    }
    assert forall|x: Seq<char>| texts(a@).contains(x) implies texts(b@).contains(x) by {
        let k = choose|k: int| 0 <= k < texts(a@).len() && texts(a@)[k] == x;
        assert(texts(b@).contains(texts(a@)[k]));
    }
    true
}

/// Whether two lists of strings hold the same set of texts.
pub fn same_text_set(a: &Vec<String>, b: &Vec<String>) -> (r: bool)
    ensures
        r == (texts(a@).to_set() == texts(b@).to_set()),
{
    let ab = texts_within(a, b);
    let ba = texts_within(b, a);
    if ab && ba {
        assert(texts(a@).to_set() =~= texts(b@).to_set());
        true
    } else {
        proof {
        if texts(a@).to_set() == texts(b@).to_set() {
            if !ab {
                assert forall|x: Seq<char>| texts(a@).contains(x) implies texts(b@).contains(x) by {
                    assert(texts(a@).to_set().contains(x));
                }
            } else {
                assert forall|x: Seq<char>| texts(b@).contains(x) implies texts(a@).contains(x) by {
                    assert(texts(b@).to_set().contains(x));
                }
            }
        }
        }
        false
    }
}

/// Whether no text occurs twice in a list of strings.
pub fn texts_distinct(v: &Vec<String>) -> (r: bool)
    ensures
        r == texts(v@).no_duplicates(),
{
    let mut i: usize = 0;
    while i < v.len()
        invariant
            i <= v@.len(),
            forall|p: int, q: int| 0 <= p < i && 0 <= q < v@.len() && p != q ==> texts(v@)[p] != texts(v@)[q],
        decreases v@.len() - i,
    {
        let mut j: usize = 0;
        while j < v.len()
            invariant
                i < v@.len(),
                j <= v@.len(),
                forall|p: int, q: int| 0 <= p < i && 0 <= q < v@.len() && p != q ==> texts(v@)[p] != texts(v@)[q],
                forall|q: int| 0 <= q < j && q != i ==> texts(v@)[i as int] != texts(v@)[q],
            decreases v@.len() - j,
        {
            if j != i && text_is(v[i].as_str(), v[j].as_str()) {
                assert(texts(v@)[i as int] == texts(v@)[j as int]);
                return false;
            }
            j = j + 1;
        }
        i = i + 1;
    }
    true
}

/// Spaces to pad a text of length `len` to `width` characters.
pub open spec fn padding(len: nat, width: nat) -> Seq<char> {
    Seq::new(if len < width { (width - len) as nat } else { 0 }, |i: int| ' ')
}

/// Pads a text with spaces on the right to at least `width` characters, as
/// `{:<width}` formats it.
pub fn pad_right(s: &str, width: usize) -> (r: String)
    ensures
        r@ == s@ + padding(s@.len(), width as nat),
{
    let cs = chars_of(s);
    let mut r = owned(s);
    let mut n = cs.len();
    let ghost start = cs@.len();
    while n < width
        invariant
            start == s@.len(),
            start <= n,
            n <= width || n == start,
            r@ == s@ + Seq::new((n - start) as nat, |i: int| ' '),
        decreases width - n,
    {
        push_str(&mut r, " ");
        proof {
            reveal_strlit(" ");
            assert(r@ =~= s@ + Seq::new((n + 1 - start) as nat, |i: int| ' '));
        }
        n = n + 1;
    }
    assert(Seq::new((n - start) as nat, |i: int| ' ') =~= padding(s@.len(), width as nat));
    r
}

} // verus!
