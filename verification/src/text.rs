//! Character-level helpers: conversions between `String` and `Vec<char>`, decimal
//! and hexadecimal rendering, and a few searches over character sequences.
use vstd::prelude::*;

verus! {

/// The characters of a string slice, in order.
///
/// Trusted: `str::chars` followed by `collect`; std documents that `chars` yields the
/// string's `char`s in order, which is what `s@` is.
#[verifier::external_body]
pub fn chars_of(s: &str) -> (v: Vec<char>)
    ensures
        v@ == s@,
{
    s.chars().collect()
}

/// The string made of the given characters, in order.
///
/// Trusted: `FromIterator<char>` for `String` (`collect`), which std documents as
/// appending each `char` in turn.
#[verifier::external_body]
pub fn string_from_chars(cs: &[char]) -> (s: String)
    ensures
        s@ == cs@,
{
    cs.iter().collect()
}

/// Appends the characters of a string slice to a character buffer.
pub fn push_str(buf: &mut Vec<char>, s: &str)
    ensures
        final(buf)@ == old(buf)@ + s@,
{
    let cs = chars_of(s);
    let mut i: usize = 0;
    while i < cs.len()
        invariant
            i <= cs@.len(),
            cs@ == s@,
            buf@ == old(buf)@ + cs@.subrange(0, i as int),
        decreases cs@.len() - i,
    {
        buf.push(cs[i]);
        i = i + 1;
        assert(cs@.subrange(0, i as int) == cs@.subrange(0, (i - 1) as int).push(cs@[i - 1]));
    }
    assert(cs@.subrange(0, cs@.len() as int) == cs@);
}

/// Appends a character sequence to a character buffer.
pub fn push_chars(buf: &mut Vec<char>, cs: &[char])
    ensures
        final(buf)@ == old(buf)@ + cs@,
{
    let mut i: usize = 0;
    while i < cs.len()
        invariant
            i <= cs@.len(),
            buf@ == old(buf)@ + cs@.subrange(0, i as int),
        decreases cs@.len() - i,
    {
        buf.push(cs[i]);
        i = i + 1;
        assert(cs@.subrange(0, i as int) == cs@.subrange(0, (i - 1) as int).push(cs@[i - 1]));
    }
    assert(cs@.subrange(0, cs@.len() as int) == cs@);
}

/// The decimal digit for `d < 10`.
pub open spec fn digit_char(d: nat) -> char {
    if d == 0 { '0' }
    else if d == 1 { '1' }
    else if d == 2 { '2' }
    else if d == 3 { '3' }
    else if d == 4 { '4' }
    else if d == 5 { '5' }
    else if d == 6 { '6' }
    else if d == 7 { '7' }
    else if d == 8 { '8' }
    else { '9' }
}

/// The decimal rendering of a natural number (no sign, no leading zeros; `0` is "0").
pub open spec fn spec_decimal(n: nat) -> Seq<char>
    decreases n,
{
    if n < 10 {
        seq![digit_char(n)]
    } else {
        spec_decimal(n / 10).push(digit_char(n % 10))
    }
}

/// The decimal rendering of a signed number (a leading `-` for negatives).
pub open spec fn spec_decimal_signed(n: int) -> Seq<char> {
    if n < 0 {
        seq!['-'] + spec_decimal((-n) as nat)
    } else {
        spec_decimal(n as nat)
    }
}

fn digit(d: u64) -> (c: char)
    requires
        d < 10,
    ensures
        c == digit_char(d as nat),
{
    if d == 0 { '0' }
    else if d == 1 { '1' }
    else if d == 2 { '2' }
    else if d == 3 { '3' }
    else if d == 4 { '4' }
    else if d == 5 { '5' }
    else if d == 6 { '6' }
    else if d == 7 { '7' }
    else if d == 8 { '8' }
    else { '9' }
}

/// Renders `n` in decimal.
pub fn decimal(n: u64) -> (r: Vec<char>)
    ensures
        r@ == spec_decimal(n as nat),
    decreases n,
{
    if n < 10 {
        let mut v = Vec::new();
        v.push(digit(n));
        v
    } else {
        let mut v = decimal(n / 10);
        v.push(digit(n % 10));
        v
    }
}

/// Renders `n` in decimal with a leading `-` when negative.
pub fn decimal_signed(n: i64) -> (r: Vec<char>)
    ensures
        r@ == spec_decimal_signed(n as int),
{
    if n < 0 {
        let magnitude: u64 = if n == i64::MIN { 9223372036854775808u64 } else { (-n) as u64 };
        let mut v = Vec::new();
        v.push('-');
        let d = decimal(magnitude);
        push_chars(&mut v, d.as_slice());
        v
    } else {
        decimal(n as u64)
    }
}

/// Upper-case hexadecimal digit of a nibble.
pub open spec fn hex_upper_char(d: nat) -> char {
    if d < 10 { digit_char(d) }
    else if d == 10 { 'A' }
    else if d == 11 { 'B' }
    else if d == 12 { 'C' }
    else if d == 13 { 'D' }
    else if d == 14 { 'E' }
    else { 'F' }
}

/// Lower-case hexadecimal digit of a nibble.
pub open spec fn hex_lower_char(d: nat) -> char {
    if d < 10 { digit_char(d) }
    else if d == 10 { 'a' }
    else if d == 11 { 'b' }
    else if d == 12 { 'c' }
    else if d == 13 { 'd' }
    else if d == 14 { 'e' }
    else { 'f' }
}

/// Hexadecimal digit of a nibble, in the requested case.
pub fn hex_digit(d: u8, upper: bool) -> (c: char)
    requires
        d < 16,
    ensures
        c == (if upper { hex_upper_char(d as nat) } else { hex_lower_char(d as nat) }),
{
    if d < 10 {
        digit(d as u64)
    } else if d == 10 {
        if upper { 'A' } else { 'a' }
    } else if d == 11 {
        if upper { 'B' } else { 'b' }
    } else if d == 12 {
        if upper { 'C' } else { 'c' }
    } else if d == 13 {
        if upper { 'D' } else { 'd' }
    } else if d == 14 {
        if upper { 'E' } else { 'e' }
    } else {
        if upper { 'F' } else { 'f' }
    }
}

/// Whether `needle` occurs in `hay` as a contiguous run.
pub open spec fn seq_contains_run(hay: Seq<char>, needle: Seq<char>) -> bool {
    exists|i: int| 0 <= i && i + needle.len() <= hay.len() && #[trigger] hay.subrange(i, i + needle.len()) == needle
}

/// Whether `hay` starts with `prefix`.
pub open spec fn seq_starts_with(hay: Seq<char>, prefix: Seq<char>) -> bool {
    prefix.len() <= hay.len() && hay.subrange(0, prefix.len() as int) == prefix
}

/// Whether `hay` ends with `suffix`.
pub open spec fn seq_ends_with(hay: Seq<char>, suffix: Seq<char>) -> bool {
    suffix.len() <= hay.len() && hay.subrange(hay.len() - suffix.len(), hay.len() as int) == suffix
}

/// Whether the run `needle` starts at position `i` of `hay`.
pub fn run_at(hay: &[char], needle: &[char], i: usize) -> (r: bool)
    ensures
        r == (i + needle@.len() <= hay@.len() && hay@.subrange(i as int, i + needle@.len()) == needle@),
{
    if i > hay.len() || needle.len() > hay.len() - i {
        return false;
    }
    let hl = hay.len();
    let mut j: usize = 0;
    while j < needle.len()
        invariant
            j <= needle@.len(),
            hl == hay@.len(),
            i + needle@.len() <= hay@.len(),
            forall|k: int| 0 <= k < j ==> hay@[i + k] == needle@[k],
        decreases needle@.len() - j,
    {
        if hay[i + j] != needle[j] {
            assert(hay@.subrange(i as int, i + needle@.len())[j as int] != needle@[j as int]);
            return false;
        }
        j = j + 1;
    }
    assert(hay@.subrange(i as int, i + needle@.len()) =~= needle@);
    true
}

/// Whether `hay` starts with `prefix`.
pub fn starts_with(hay: &[char], prefix: &[char]) -> (r: bool)
    ensures
        r == seq_starts_with(hay@, prefix@),
{
    run_at(hay, prefix, 0)
}

/// Whether `hay` ends with `suffix`.
pub fn ends_with(hay: &[char], suffix: &[char]) -> (r: bool)
    ensures
        r == seq_ends_with(hay@, suffix@),
{
    if suffix.len() > hay.len() {
        return false;
    }
    run_at(hay, suffix, hay.len() - suffix.len())
}

/// Whether `needle` occurs somewhere in `hay`.
pub fn contains_run(hay: &[char], needle: &[char]) -> (r: bool)
    ensures
        r == seq_contains_run(hay@, needle@),
{
    if needle.len() > hay.len() {
        return false;
    }
    let last = hay.len() - needle.len();
    let mut i: usize = 0;
    while i < last
        invariant
            i <= last,
            last == hay@.len() - needle@.len(),
            forall|k: int| 0 <= k < i ==> #[trigger] hay@.subrange(k, k + needle@.len()) != needle@,
        decreases last - i,
    {
        if run_at(hay, needle, i) {
            return true;
        }
        i = i + 1;
    }
    if run_at(hay, needle, last) {
        return true;
    }
    assert forall|k: int| 0 <= k && k + needle@.len() <= hay@.len() implies #[trigger] hay@.subrange(k, k + needle@.len()) != needle@ by {
        assert(k <= last);
    }
    false
}

/// The text with every leading occurrence of a non-empty `prefix` removed, repeatedly
/// (`str::trim_start_matches`).
pub open spec fn trim_prefix_all(s: Seq<char>, prefix: Seq<char>) -> Seq<char>
    decreases s.len(),
{
    if prefix.len() > 0 && seq_starts_with(s, prefix) {
        trim_prefix_all(s.subrange(prefix.len() as int, s.len() as int), prefix)
    } else {
        s
    }
}

/// The text with every trailing `c` removed (`str::trim_end_matches` with a `char`).
pub open spec fn trim_end_char(s: Seq<char>, c: char) -> Seq<char>
    decreases s.len(),
{
    if s.len() > 0 && s.last() == c {
        trim_end_char(s.drop_last(), c)
    } else {
        s
    }
}

/// The items joined with `sep` between consecutive items (`[T]::join`).
pub open spec fn spec_join(items: Seq<Seq<char>>, sep: Seq<char>) -> Seq<char>
    decreases items.len(),
{
    if items.len() == 0 {
        Seq::empty()
    } else if items.len() == 1 {
        items[0]
    } else {
        spec_join(items.drop_last(), sep) + sep + items.last()
    }
}

/// The text with every leading occurrence of `prefix` removed (see [`trim_prefix_all`]).
pub fn trim_start_all(s: &[char], prefix: &[char]) -> (r: Vec<char>)
    ensures
        r@ == trim_prefix_all(s@, prefix@),
{
    let mut start: usize = 0;
    assert(s@.subrange(0, s@.len() as int) =~= s@);
    if prefix.len() > 0 {
        while start <= s.len() && prefix.len() <= s.len() - start && run_at(s, prefix, start)
            invariant
                start <= s@.len(),
                prefix@.len() > 0,
                trim_prefix_all(s@, prefix@) == trim_prefix_all(s@.subrange(start as int, s@.len() as int), prefix@),
            decreases s@.len() - start,
        {
            let ghost rest = s@.subrange(start as int, s@.len() as int);
            assert(rest.subrange(0, prefix@.len() as int) =~= s@.subrange(start as int, start + prefix@.len()));
            assert(rest.subrange(prefix@.len() as int, rest.len() as int) =~= s@.subrange(start + prefix@.len(), s@.len() as int));
            start = start + prefix.len();
        }
        proof {
            let rest = s@.subrange(start as int, s@.len() as int);
            if prefix@.len() <= rest.len() {
                assert(rest.subrange(0, prefix@.len() as int) =~= s@.subrange(start as int, start + prefix@.len()));
            }
        }
    }
    let mut out: Vec<char> = Vec::new();
    let mut i = start;
    while i < s.len()
        invariant
            start <= i <= s@.len(),
            out@ == s@.subrange(start as int, i as int),
        decreases s@.len() - i,
    {
        out.push(s[i]);
        i = i + 1;
        assert(out@ =~= s@.subrange(start as int, i as int));
    }
    out
}

/// The text with every trailing `c` removed (see [`trim_end_char`]).
pub fn trim_end_all(s: &[char], c: char) -> (r: Vec<char>)
    ensures
        r@ == trim_end_char(s@, c),
{
    let mut end: usize = s.len();
    assert(s@.subrange(0, s@.len() as int) =~= s@);
    while end > 0 && s[end - 1] == c
        invariant
            end <= s@.len(),
            trim_end_char(s@, c) == trim_end_char(s@.subrange(0, end as int), c),
        decreases end,
    {
        assert(s@.subrange(0, end as int).drop_last() =~= s@.subrange(0, end - 1));
        end = end - 1;
    }
    let mut out: Vec<char> = Vec::new();
    let mut i: usize = 0;
    while i < end
        invariant
            i <= end <= s@.len(),
            out@ == s@.subrange(0, i as int),
        decreases end - i,
    {
        out.push(s[i]);
        i = i + 1;
        assert(out@ =~= s@.subrange(0, i as int));
    }
    out
}

/// The strings joined with `sep` (see [`spec_join`]).
pub fn join_strings(items: &Vec<String>, sep: &str) -> (r: String)
    ensures
        r@ == spec_join(items.deep_view(), sep@),
{
    let mut buf: Vec<char> = Vec::new();
    let mut i: usize = 0;
    while i < items.len()
        invariant
            i <= items@.len(),
            buf@ == spec_join(items.deep_view().subrange(0, i as int), sep@),
        decreases items@.len() - i,
    {
        let ghost before = buf@;
        let ghost prefix = items.deep_view().subrange(0, i + 1);
        assert(prefix.drop_last() =~= items.deep_view().subrange(0, i as int));
        if i > 0 {
            push_str(&mut buf, sep);
        }
        push_str(&mut buf, items[i].as_str());
        i = i + 1;
        if i == 1 {
            assert(buf@ =~= spec_join(items.deep_view().subrange(0, i as int), sep@));
        } else {
            assert(buf@ =~= before + sep@ + items.deep_view()[i - 1]);
        }
    }
    assert(items.deep_view().subrange(0, items@.len() as int) =~= items.deep_view());
    string_from_chars(buf.as_slice())
}

/// The text of an optional string.
pub open spec fn opt_text(o: Option<String>) -> Option<Seq<char>> {
    match o {
        Some(s) => Some(s@),
        None => None,
    }
}

/// Unicode `White_Space` (what `char::is_whitespace` tests).
pub open spec fn is_white(c: char) -> bool {
    let v = c as u32;
    (0x9 <= v <= 0xd) || v == 0x20 || v == 0x85 || v == 0xa0 || v == 0x1680 || (0x2000 <= v <= 0x200a)
        || v == 0x2028 || v == 0x2029 || v == 0x202f || v == 0x205f || v == 0x3000
}

/// Whether `c` is Unicode white space (see [`is_white`]).
pub fn white(c: char) -> (r: bool)
    ensures
        r == is_white(c),
{
    let v = c as u32;
    (0x9 <= v && v <= 0xd) || v == 0x20 || v == 0x85 || v == 0xa0 || v == 0x1680 || (0x2000 <= v && v <= 0x200a)
        || v == 0x2028 || v == 0x2029 || v == 0x202f || v == 0x205f || v == 0x3000
}

/// The base64 digit of a six-bit value: `A`-`Z`, `a`-`z`, `0`-`9`, then `+` and `/` (or
/// `-` and `_` in the URL-safe alphabet).
pub open spec fn base64_digit(v: int, url_safe: bool) -> char {
    if v < 26 {
        (v + 65) as char
    } else if v < 52 {
        (v - 26 + 97) as char
    } else if v < 62 {
        (v - 52 + 48) as char
    } else if v == 62 {
        if url_safe { '-' } else { '+' }
    } else {
        if url_safe { '_' } else { '/' }
    }
}

/// The base64 text of the bytes (RFC 4648): each three bytes become four digits; a final
/// one or two bytes become two or three digits, followed by `=` up to four when padding.
pub open spec fn spec_base64(bytes: Seq<u8>, url_safe: bool, pad: bool) -> Seq<char>
    decreases bytes.len(),
{
    if bytes.len() == 0 {
        Seq::empty()
    } else if bytes.len() == 1 {
        let b0 = bytes[0] as int;
        seq![base64_digit(b0 / 4, url_safe), base64_digit((b0 % 4) * 16, url_safe)] + if pad { seq!['=', '='] } else { Seq::empty() }
    } else if bytes.len() == 2 {
        let b0 = bytes[0] as int;
        let b1 = bytes[1] as int;
        seq![
            base64_digit(b0 / 4, url_safe),
            base64_digit((b0 % 4) * 16 + b1 / 16, url_safe),
            base64_digit((b1 % 16) * 4, url_safe),
        ] + if pad { seq!['='] } else { Seq::empty() }
    } else {
        let b0 = bytes[0] as int;
        let b1 = bytes[1] as int;
        let b2 = bytes[2] as int;
        seq![
            base64_digit(b0 / 4, url_safe),
            base64_digit((b0 % 4) * 16 + b1 / 16, url_safe),
            base64_digit((b1 % 16) * 4 + b2 / 64, url_safe),
            base64_digit(b2 % 64, url_safe),
        ] + spec_base64(bytes.subrange(3, bytes.len() as int), url_safe, pad)
    }
}

/// The text without leading white space.
pub open spec fn trim_start_white(s: Seq<char>) -> Seq<char>
    decreases s.len(),
{
    if s.len() > 0 && is_white(s[0]) { trim_start_white(s.subrange(1, s.len() as int)) } else { s }
}

/// The text without trailing white space.
pub open spec fn trim_end_white(s: Seq<char>) -> Seq<char>
    decreases s.len(),
{
    if s.len() > 0 && is_white(s.last()) { trim_end_white(s.drop_last()) } else { s }
}

proof fn lemma_trim_start_shape(s: Seq<char>)
    ensures
        trim_start_white(s).len() == 0 || !is_white(trim_start_white(s)[0]),
    decreases s.len(),
{
    if s.len() > 0 && is_white(s[0]) {
        lemma_trim_start_shape(s.subrange(1, s.len() as int));
    }
}

proof fn lemma_trim_end_shape(s: Seq<char>)
    ensures
        trim_end_white(s).len() <= s.len(),
        trim_end_white(s) =~= s.subrange(0, trim_end_white(s).len() as int),
        trim_end_white(s).len() == 0 || !is_white(trim_end_white(s).last()),
    decreases s.len(),
{
    if s.len() > 0 && is_white(s.last()) {
        lemma_trim_end_shape(s.drop_last());
    }
}

/// Trimming trimmed text changes nothing.
pub proof fn lemma_trim_idempotent(s: Seq<char>)
    ensures
        trim_white(trim_white(s)) == trim_white(s),
{
    let t = trim_start_white(s);
    let r = trim_end_white(t);
    lemma_trim_start_shape(s);
    lemma_trim_end_shape(t);
    if r.len() > 0 {
        assert(r[0] == t[0]);
    }
    assert(trim_start_white(r) == r);
    assert(trim_end_white(r) == r);
}

/// The text without leading and trailing white space (`str::trim`).
pub open spec fn trim_white(s: Seq<char>) -> Seq<char> {
    trim_end_white(trim_start_white(s))
}

/// The text without leading and trailing white space (see [`trim_white`]).
pub fn trim(s: &str) -> (r: String)
    ensures
        r@ == trim_white(s@),
{
    let cs = chars_of(s);
    let mut start: usize = 0;
    assert(cs@.subrange(0, cs@.len() as int) =~= cs@);
    while start < cs.len() && white(cs[start])
        invariant
            start <= cs@.len(),
            cs@ == s@,
            trim_start_white(s@) == trim_start_white(cs@.subrange(start as int, cs@.len() as int)),
        decreases cs@.len() - start,
    {
        let ghost rest = cs@.subrange(start as int, cs@.len() as int);
        assert(rest.subrange(1, rest.len() as int) =~= cs@.subrange(start + 1, cs@.len() as int));
        start = start + 1;
    }
    proof {
        assert(cs@.subrange(0, cs@.len() as int) =~= cs@);
    }
    let mut end: usize = cs.len();
    while end > start && white(cs[end - 1])
        invariant
            start <= end <= cs@.len(),
            cs@ == s@,
            trim_start_white(s@) == cs@.subrange(start as int, cs@.len() as int) || start < cs@.len() && !is_white(cs@[start as int]) || start == cs@.len(),
            trim_white(s@) == trim_end_white(cs@.subrange(start as int, end as int)),
        decreases end,
    {
        assert(cs@.subrange(start as int, end as int).drop_last() =~= cs@.subrange(start as int, end - 1));
        end = end - 1;
    }
    let mut out: Vec<char> = Vec::new();
    let mut i = start;
    while i < end
        invariant
            start <= i <= end <= cs@.len(),
            out@ == cs@.subrange(start as int, i as int),
        decreases end - i,
    {
        out.push(cs[i]);
        i = i + 1;
        assert(out@ =~= cs@.subrange(start as int, i as int));
    }
    string_from_chars(out.as_slice())
}

/// Lexicographic order of texts by character (which is the byte order of their UTF-8
/// encodings, the order of `String`).
pub open spec fn text_less(a: Seq<char>, b: Seq<char>) -> bool
    decreases a.len(),
{
    if b.len() == 0 {
        false
    } else if a.len() == 0 {
        true
    } else if a[0] < b[0] {
        true
    } else if a[0] > b[0] {
        false
    } else {
        text_less(a.subrange(1, a.len() as int), b.subrange(1, b.len() as int))
    }
}

/// No text sorts both before and after another.
pub proof fn lemma_text_less_asymmetric(a: Seq<char>, b: Seq<char>)
    ensures
        text_less(a, b) ==> !text_less(b, a),
    decreases a.len(),
{
    if a.len() > 0 && b.len() > 0 && a[0] == b[0] {
        lemma_text_less_asymmetric(a.subrange(1, a.len() as int), b.subrange(1, b.len() as int));
    }
}

/// Of two different texts, one sorts before the other.
pub proof fn lemma_text_less_total(a: Seq<char>, b: Seq<char>)
    ensures
        !text_less(a, b) ==> text_less(b, a) || a == b,
    decreases a.len(),
{
    if a.len() == 0 && b.len() == 0 {
        assert(a =~= b);
    } else if a.len() > 0 && b.len() > 0 && a[0] == b[0] {
        let ta = a.subrange(1, a.len() as int);
        let tb = b.subrange(1, b.len() as int);
        lemma_text_less_total(ta, tb);
        if ta == tb {
            assert(a =~= seq![a[0]] + ta);
            assert(b =~= seq![b[0]] + tb);
        }
    }
}

/// The order of texts is transitive.
pub proof fn lemma_text_less_transitive(a: Seq<char>, b: Seq<char>, c: Seq<char>)
    requires
        text_less(a, b),
        text_less(b, c),
    ensures
        text_less(a, c),
    decreases a.len(),
{
    if a.len() > 0 && a[0] == b[0] && b[0] == c[0] {
        lemma_text_less_transitive(
            a.subrange(1, a.len() as int),
            b.subrange(1, b.len() as int),
            c.subrange(1, c.len() as int),
        );
    }
}

/// Whether `a` sorts before `b` (see [`text_less`]).
pub fn less_text(a: &String, b: &String) -> (r: bool)
    ensures
        r == text_less(a@, b@),
{
    let x = chars_of(a.as_str());
    let y = chars_of(b.as_str());
    let mut i: usize = 0;
    assert(x@.subrange(0, x@.len() as int) =~= x@);
    assert(y@.subrange(0, y@.len() as int) =~= y@);
    while i < x.len() && i < y.len() && x[i] == y[i]
        invariant
            i <= x@.len(),
            i <= y@.len(),
            x@ == a@,
            y@ == b@,
            text_less(a@, b@) == text_less(x@.subrange(i as int, x@.len() as int), y@.subrange(i as int, y@.len() as int)),
        decreases x@.len() - i,
    {
        let ghost xs = x@.subrange(i as int, x@.len() as int);
        let ghost ys = y@.subrange(i as int, y@.len() as int);
        assert(xs.subrange(1, xs.len() as int) =~= x@.subrange(i + 1, x@.len() as int));
        assert(ys.subrange(1, ys.len() as int) =~= y@.subrange(i + 1, y@.len() as int));
        i = i + 1;
    }
    let ghost xs = x@.subrange(i as int, x@.len() as int);
    let ghost ys = y@.subrange(i as int, y@.len() as int);
    if i == y.len() {
        assert(ys.len() == 0);
        false
    } else if i == x.len() {
        assert(xs.len() == 0 && ys.len() > 0);
        true
    } else {
        assert(xs[0] == x@[i as int] && ys[0] == y@[i as int]);
        x[i] < y[i]
    }
}

/// Whether the run `needle` starts at position `i` of `hay`.
pub open spec fn run_starts_at(hay: Seq<char>, needle: Seq<char>, i: int) -> bool {
    0 <= i && i + needle.len() <= hay.len() && hay.subrange(i, i + needle.len()) == needle
}

/// The first position at or after `i` where the run `needle` starts.
pub open spec fn run_position_from(hay: Seq<char>, needle: Seq<char>, i: int) -> Option<int>
    decreases hay.len() + 1 - i,
{
    if i < 0 || i + needle.len() > hay.len() {
        None
    } else if run_starts_at(hay, needle, i) {
        Some(i)
    } else {
        run_position_from(hay, needle, i + 1)
    }
}

/// The last position before `end` (as a start) where the run `needle` starts.
pub open spec fn last_run_position_before(hay: Seq<char>, needle: Seq<char>, end: int) -> Option<int>
    decreases end,
{
    if end <= 0 {
        None
    } else if run_starts_at(hay, needle, end - 1) {
        Some(end - 1)
    } else {
        last_run_position_before(hay, needle, end - 1)
    }
}

/// The last position where the run `needle` starts.
pub open spec fn last_run_position(hay: Seq<char>, needle: Seq<char>) -> Option<int> {
    if run_starts_at(hay, needle, hay.len() as int) {
        Some(hay.len() as int)
    } else {
        last_run_position_before(hay, needle, hay.len() as int)
    }
}

/// The first position where the run `needle` starts.
pub fn find_run(hay: &[char], needle: &[char]) -> (r: Option<usize>)
    ensures
        match run_position_from(hay@, needle@, 0) {
            Some(k) => r matches Some(u) && u as int == k,
            None => r is None,
        },
        r matches Some(u) ==> u + needle@.len() <= hay@.len(),
{
    if needle.len() > hay.len() {
        return None;
    }
    let last = hay.len() - needle.len();
    let mut i: usize = 0;
    while i < last
        invariant
            i <= last,
            last == hay@.len() - needle@.len(),
            run_position_from(hay@, needle@, 0) == run_position_from(hay@, needle@, i as int),
        decreases last - i,
    {
        if run_at(hay, needle, i) {
            return Some(i);
        }
        i = i + 1;
    }
    if run_at(hay, needle, last) {
        return Some(last);
    }
    assert(run_position_from(hay@, needle@, last + 1) is None);
    None
}

/// The last position where the run `needle` starts.
pub fn rfind_run(hay: &[char], needle: &[char]) -> (r: Option<usize>)
    ensures
        match last_run_position(hay@, needle@) {
            Some(k) => r matches Some(u) && u as int == k,
            None => r is None,
        },
        r matches Some(u) ==> u + needle@.len() <= hay@.len(),
{
    if run_at(hay, needle, hay.len()) {
        return Some(hay.len());
    }
    let mut end: usize = hay.len();
    while end > 0
        invariant
            end <= hay@.len(),
            !run_starts_at(hay@, needle@, hay@.len() as int),
            last_run_position(hay@, needle@) == last_run_position_before(hay@, needle@, end as int),
        decreases end,
    {
        if run_at(hay, needle, end - 1) {
            return Some(end - 1);
        }
        end = end - 1;
    }
    None
}

} // verus!
