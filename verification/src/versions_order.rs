//! The order of version numbers: a version read as the numbers between its dots, and
//! versions compared number by number.
use vstd::prelude::*;
use crate::bundle::char_position_from;
use crate::delivery::{digits_value, is_digit_run, parse_i64, spec_parse_i64};

verus! {

/// What `str::parse::<u32>` reads: an optional `+` and at least one ASCII digit, when the
/// value fits a `u32`.
pub open spec fn spec_parse_u32(s: Seq<char>) -> Option<u32> {
    let body = if s.len() > 0 && s[0] == '+' { s.subrange(1, s.len() as int) } else { s };
    if body.len() == 0 || !is_digit_run(body) || digits_value(body) > u32::MAX {
        None
    } else {
        Some(digits_value(body) as u32)
    }
}

proof fn lemma_digits_nonnegative(s: Seq<char>)
    requires
        is_digit_run(s),
    ensures
        digits_value(s) >= 0,
    decreases s.len(),
{
    if s.len() > 0 {
        assert(is_digit_run(s.drop_last()));
        lemma_digits_nonnegative(s.drop_last());
    }
}

/// Reads an unsigned 32-bit integer (see [`spec_parse_u32`]).
pub fn parse_u32(s: &[char]) -> (r: Option<u32>)
    ensures
        r == spec_parse_u32(s@),
{
    if s.len() > 0 && s[0] == '-' {
        return None;
    }
    let ghost signed = s@.len() > 0 && s@[0] == '+';
    let ghost body = if signed { s@.subrange(1, s@.len() as int) } else { s@ };
    proof {
        if body.len() > 0 && is_digit_run(body) {
            lemma_digits_nonnegative(body);
        }
    }
    match parse_i64(s) {
        Some(v) => if 0 <= v && v <= 4294967295 {
            Some(v as u32)
        } else {
            None
        },
        None => None,
    }
}

/// The pieces of a text between its dots (one piece when it has none).
pub open spec fn dot_segments(s: Seq<char>) -> Seq<Seq<char>>
    decreases s.len(),
{
    match char_position_from(s, '.', 0) {
        None => seq![s],
        Some(k) => if 0 <= k < s.len() {
            seq![s.subrange(0, k)] + dot_segments(s.subrange(k + 1, s.len() as int))
        } else {
            seq![s]
        },
    }
}

/// The numbers among the pieces, in order (pieces that are not `u32` numbers left out).
pub open spec fn numeric_parts(segments: Seq<Seq<char>>) -> Seq<u32>
    decreases segments.len(),
{
    if segments.len() == 0 {
        Seq::empty()
    } else {
        let rest = numeric_parts(segments.drop_first());
        match spec_parse_u32(segments[0]) {
            Some(v) => seq![v] + rest,
            None => rest,
        }
    }
}

/// A version as the numbers between its dots: `1.10.2` is `[1, 10, 2]`.
pub open spec fn spec_version_key(version: Seq<char>) -> Seq<u32> {
    numeric_parts(dot_segments(version))
}

proof fn lemma_no_dot(s: Seq<char>, i: int)
    requires
        0 <= i,
        forall|m: int| i <= m < s.len() ==> s[m] != '.',
    ensures
        char_position_from(s, '.', i) is None,
    decreases s.len() - i,
{
    if i < s.len() {
        lemma_no_dot(s, i + 1);
    }
}

/// A version as the numbers between its dots (see [`spec_version_key`]).
pub fn version_key(version: &str) -> (r: Vec<u32>)
    ensures
        r@ == spec_version_key(version@),
{
    let s = crate::text::chars_of(version);
    let mut done: Vec<u32> = Vec::new();
    let mut cur: Vec<char> = Vec::new();
    let mut i: usize = 0;
    assert(s@.subrange(0, s@.len() as int) =~= s@);
    assert(cur@ + s@.subrange(0, s@.len() as int) =~= s@);
    while i < s.len()
        invariant
            i <= s@.len(),
            s@ == version@,
            forall|m: int| 0 <= m < cur@.len() ==> cur@[m] != '.',
            done@ + numeric_parts(dot_segments(cur@ + s@.subrange(i as int, s@.len() as int))) == spec_version_key(version@),
        decreases s@.len() - i,
    {
        let c = s[i];
        let ghost rest = s@.subrange(i as int + 1, s@.len() as int);
        let ghost whole = cur@ + s@.subrange(i as int, s@.len() as int);
        assert(whole =~= cur@ + seq![c] + rest);
        if c == '.' {
            proof {
                assert(whole[cur@.len() as int] == '.');
                assert forall|m: int| 0 <= m < cur@.len() implies whole[m] != '.' by {
                    assert(whole[m] == cur@[m]);
                }
                crate::install_tokens::lemma_position_at(whole, '.', 0, cur@.len() as int);
                assert(whole.subrange(0, cur@.len() as int) =~= cur@);
                assert(whole.subrange(cur@.len() as int + 1, whole.len() as int) =~= rest);
                let segs = dot_segments(whole);
                assert(segs == seq![cur@] + dot_segments(rest));
                assert(segs.drop_first() =~= dot_segments(rest));
                assert(Seq::<char>::empty() + rest =~= rest);
            }
            let piece = parse_u32(cur.as_slice());
            match piece {
                Some(v) => {
                    let ghost before = done@;
                    done.push(v);
                    assert(done@ + numeric_parts(dot_segments(rest)) =~= before + (seq![v] + numeric_parts(dot_segments(rest))));
                },
                None => {},
            }
            cur = Vec::new();
        } else {
            cur.push(c);
            assert(cur@ + rest =~= whole);
        }
        i = i + 1;
    }
    proof {
        let last = cur@ + s@.subrange(s@.len() as int, s@.len() as int);
        assert(last =~= cur@);
        lemma_no_dot(cur@, 0);
        assert(dot_segments(cur@) == seq![cur@]);
        assert(seq![cur@].drop_first() =~= Seq::<Seq<char>>::empty());
        assert(numeric_parts(Seq::<Seq<char>>::empty()) =~= Seq::<u32>::empty());
        assert(done@ + numeric_parts(seq![cur@]) == spec_version_key(version@));
    }
    match parse_u32(cur.as_slice()) {
        Some(v) => {
            let ghost before = done@;
            done.push(v);
            assert(done@ =~= before + (seq![v] + Seq::<u32>::empty()));
        },
        None => {
            assert(done@ =~= done@ + Seq::<u32>::empty());
        },
    }
    done
}

/// Lexicographic order of number lists (a list before any longer list it starts).
pub open spec fn key_less(a: Seq<u32>, b: Seq<u32>) -> bool
    decreases a.len(),
{
    if b.len() == 0 {
        false
    } else if a.len() == 0 {
        true
    } else if a[0] < b[0] {
        true
    } else if a[0] > b[0] {
        false
    } else {
        key_less(a.subrange(1, a.len() as int), b.subrange(1, b.len() as int))
    }
}

/// Whether list `a` sorts before list `b` (see [`key_less`]).
pub fn less_key(a: &Vec<u32>, b: &Vec<u32>) -> (r: bool)
    ensures
        r == key_less(a@, b@),
{
    let mut i: usize = 0;
    assert(a@.subrange(0, a@.len() as int) =~= a@);
    assert(b@.subrange(0, b@.len() as int) =~= b@);
    while i < a.len() && i < b.len() && a[i] == b[i]
        invariant
            i <= a@.len(),
            i <= b@.len(),
            key_less(a@, b@) == key_less(a@.subrange(i as int, a@.len() as int), b@.subrange(i as int, b@.len() as int)),
        decreases a@.len() - i,
    {
        let ghost ta = a@.subrange(i as int, a@.len() as int);
        let ghost tb = b@.subrange(i as int, b@.len() as int);
        assert(ta.subrange(1, ta.len() as int) =~= a@.subrange(i + 1, a@.len() as int));
        assert(tb.subrange(1, tb.len() as int) =~= b@.subrange(i + 1, b@.len() as int));
        i = i + 1;
    }
    if i == b.len() {
        false
    } else if i == a.len() {
        true
    } else {
        a[i] < b[i]
    }
}

/// No list sorts both before and after another.
pub proof fn lemma_key_less_asymmetric(a: Seq<u32>, b: Seq<u32>)
    ensures
        key_less(a, b) ==> !key_less(b, a),
    decreases a.len(),
{
    if a.len() > 0 && b.len() > 0 && a[0] == b[0] {
        lemma_key_less_asymmetric(a.subrange(1, a.len() as int), b.subrange(1, b.len() as int));
    }
}

/// Of two different lists, one sorts before the other.
pub proof fn lemma_key_less_total(a: Seq<u32>, b: Seq<u32>)
    ensures
        !key_less(a, b) ==> key_less(b, a) || a == b,
    decreases a.len(),
{
    if a.len() == 0 && b.len() == 0 {
        assert(a =~= b);
    } else if a.len() > 0 && b.len() > 0 && a[0] == b[0] {
        let ta = a.subrange(1, a.len() as int);
        let tb = b.subrange(1, b.len() as int);
        lemma_key_less_total(ta, tb);
        if ta == tb {
            assert(a =~= seq![a[0]] + ta);
            assert(b =~= seq![b[0]] + tb);
        }
    }
}

/// The order of lists is transitive.
pub proof fn lemma_key_less_transitive(a: Seq<u32>, b: Seq<u32>, c: Seq<u32>)
    requires
        key_less(a, b),
        key_less(b, c),
    ensures
        key_less(a, c),
    decreases a.len(),
{
    if a.len() > 0 && a[0] == b[0] && b[0] == c[0] {
        lemma_key_less_transitive(
            a.subrange(1, a.len() as int),
            b.subrange(1, b.len() as int),
            c.subrange(1, c.len() as int),
        );
    }
}

} // verus!
