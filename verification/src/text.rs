//! Small text operations of std that the library's logic uses.

use vstd::prelude::*;
use vstd::std_specs::iter::IteratorSpec;

verus! {

/// `<str as PartialEq>::eq`: two string slices are equal exactly when they hold
/// the same characters.
#[verifier::external_body]
pub(crate) fn str_eq(a: &str, b: &str) -> (r: bool)
    ensures
        r == (a@ == b@),
{
    a == b
}

/// `String::push`: appends one character.
#[verifier::external_body]
pub(crate) fn string_push(s: &mut String, c: char)
    ensures
        final(s)@ == old(s)@.push(c),
{
    s.push(c)
}

/// `String::pop`: removes and returns the last character, if any.
#[verifier::external_body]
pub(crate) fn string_pop(s: &mut String) -> (r: Option<char>)
    ensures
        old(s)@.len() == 0 ==> r is None && final(s)@ == old(s)@,
        old(s)@.len() > 0 ==> r == Some(old(s)@.last()) && final(s)@ == old(s)@.drop_last(),
{
    s.pop()
}

/// Whether `char::is_alphanumeric` holds of a character (Unicode's
/// Alphabetic or Numeric property).
pub uninterp spec fn char_alphanumeric(c: char) -> bool;

/// `char::is_alphanumeric`.
#[verifier::external_body]
pub(crate) fn is_alphanumeric(c: char) -> (r: bool)
    ensures
        r == char_alphanumeric(c),
{
    c.is_alphanumeric()
}

/// `char::is_ascii_graphic`: U+0021 '!' ..= U+007E '~'.
pub fn is_ascii_graphic(c: char) -> (r: bool)
    ensures
        r == ('!' <= c && c <= '~'),
{
    '!' <= c && c <= '~'
}

/// `char::is_control`: the general category Cc, U+0000..=U+001F and
/// U+007F..=U+009F.
pub fn is_control(c: char) -> (r: bool)
    ensures
        r == (c <= '\u{1f}' || ('\u{7f}' <= c && c <= '\u{9f}')),
{
    c <= '\u{1f}' || ('\u{7f}' <= c && c <= '\u{9f}')
}

/// The first character of a string slice, if any.
pub fn first_char(s: &str) -> (r: Option<char>)
    ensures
        s@.len() == 0 ==> r is None,
        s@.len() > 0 ==> r == Some(s@[0]),
{
    let mut it = s.chars();
    proof {
        broadcast use vstd::string::axiom_spec_iter;
        broadcast use vstd::string::next_postcondition;
    }
    it.next()
}

/// A copy of a string.
pub fn copy_string(s: &String) -> (r: String)
    ensures
        r == *s,
{
    s.clone()
}

/// A copy of an optional string.
pub fn copy_opt_string(s: &Option<String>) -> (r: Option<String>)
    ensures
        r == *s,
{
    match s {
        Some(t) => Some(t.clone()),
        None => None,
    }
}

/// A copy of a list of strings.
pub fn copy_strings(v: &Vec<String>) -> (r: Vec<String>)
    ensures
        r@ == v@,
{
    let mut out: Vec<String> = Vec::new();
    let mut i: usize = 0;
    while i < v.len()
        invariant
            i <= v.len(),
            out@ == v@.subrange(0, i as int),
        decreases v.len() - i,
    {
        out.push(v[i].clone());
        i += 1;
    }
    out
}

/// Whether a list of strings holds one equal to `s`.
pub fn strings_contain(v: &Vec<String>, s: &String) -> (r: bool)
    ensures
        r == exists|i: int| 0 <= i < v@.len() && v@[i]@ == s@,
{
    let mut i: usize = 0;
    while i < v.len()
        invariant
            i <= v.len(),
            forall|j: int| 0 <= j < i ==> v@[j]@ != s@,
        decreases v.len() - i,
    {
        if v[i] == *s {
            return true;
        }
        i += 1;
    }
    false
}

/// The decimal digit character of `d < 10`.
pub open spec fn digit_char(d: nat) -> char {
    if d == 0 { '0' }
    else if d == 1 { '1' }
    else if d == 2 { '2' }
    else if d == 3 { '3' }
    else if d == 4 { '4' }
    else if d == 5 { '5' }
    else if d == 6 { '6' }
    else if d == 7 { '7' }
    else if d == 8 { '8' }
    else { '9' }
}

/// The decimal representation of a natural number, as `Display` writes it.
pub open spec fn decimal(n: nat) -> Seq<char>
    decreases n,
{
    if n < 10 {
        seq![digit_char(n)]
    } else {
        decimal(n / 10).push(digit_char(n % 10))
    }
}

/// The decimal representation of an integer, with a leading '-' when negative.
pub open spec fn decimal_int(n: int) -> Seq<char> {
    if n < 0 {
        seq!['-'] + decimal((-n) as nat)
    } else {
        decimal(n as nat)
    }
}

fn digit(d: u64) -> (c: char)
    requires
        d < 10,
    ensures
        c == digit_char(d as nat),
{
    if d == 0 { '0' }
    else if d == 1 { '1' }
    else if d == 2 { '2' }
    else if d == 3 { '3' }
    else if d == 4 { '4' }
    else if d == 5 { '5' }
    else if d == 6 { '6' }
    else if d == 7 { '7' }
    else if d == 8 { '8' }
    else { '9' }
}

/// Appends the decimal representation of `n`.
pub fn push_decimal(s: &mut String, n: u64)
    ensures
        final(s)@ == old(s)@ + decimal(n as nat),
    decreases n,
{
    if n >= 10 {
        push_decimal(s, n / 10);
    }
    string_push(s, digit(n % 10));
    proof {
        if n >= 10 {
            assert(old(s)@ + decimal(n as nat) =~= old(s)@ + decimal((n / 10) as nat) + seq![digit_char((n % 10) as nat)]);
        } else {
            assert(old(s)@ + decimal(n as nat) =~= old(s)@.push(digit_char((n % 10) as nat)));
        }
    }
}

/// Appends the decimal representation of `n`, with a '-' when negative.
pub fn push_decimal_i64(s: &mut String, n: i64)
    ensures
        final(s)@ == old(s)@ + decimal_int(n as int),
{
    if n < 0 {
        string_push(s, '-');
        let m: u64 = if n == i64::MIN { 9223372036854775808u64 } else { (-n) as u64 };
        push_decimal(s, m);
        proof {
            assert(final(s)@ =~= old(s)@ + decimal_int(n as int));
        }
    } else {
        push_decimal(s, n as u64);
    }
}

/// Appends a string slice.
pub fn push_str(s: &mut String, t: &str)
    ensures
        final(s)@ == old(s)@ + t@,
{
    s.append(t);
}

/// The characters of a string slice, in order.
pub fn chars_of(s: &str) -> (r: Vec<char>)
    ensures
        r@ == s@,
{
    let mut chars: Vec<char> = Vec::new();
    let mut it = s.chars();
    proof {
        broadcast use vstd::string::axiom_spec_iter;
        broadcast use vstd::string::next_postcondition;
    }
    let ghost all = s@;
    assert(IteratorSpec::remaining(&it) == all);
    loop
        invariant
            chars@ + IteratorSpec::remaining(&it) == all,
            IteratorSpec::decrease(&it) is Some,
        ensures
            chars@ == all,
        decreases IteratorSpec::decrease(&it)->0,
    {
        match it.next() {
            Some(c) => {
                chars.push(c);
                assert(chars@ + IteratorSpec::remaining(&it) =~= all);
            },
            None => {
                assert(chars@ =~= all);
                break;
            },
        }
    }
    chars
}

/// `k` is where `a` and `b` first differ: the end of the shorter one, or the
/// first position where their characters differ.
pub open spec fn first_diff(a: Seq<char>, b: Seq<char>, k: int) -> bool {
    &&& 0 <= k <= a.len()
    &&& k <= b.len()
    &&& forall|j: int| 0 <= j < k ==> a[j] == b[j]
    &&& (k == a.len() || k == b.len() || a[k] != b[k])
}

/// `a` comes strictly before `b` in lexicographic order of code points (the
/// order of `String`).
pub open spec fn chars_before(a: Seq<char>, b: Seq<char>) -> bool {
    exists|k: int| #[trigger] first_diff(a, b, k) && k < b.len() && (k == a.len() || a[k] < b[k])
}

/// Two sequences differ first at one place only.
pub proof fn lemma_first_diff_unique(a: Seq<char>, b: Seq<char>, k1: int, k2: int)
    requires
        first_diff(a, b, k1),
        first_diff(a, b, k2),
    ensures
        k1 == k2,
{
    if k1 < k2 {
        assert(a[k1] == b[k1]);
    } else if k2 < k1 {
        assert(a[k2] == b[k2]);
    }
}

proof fn first_diff_from(a: Seq<char>, b: Seq<char>, i: int) -> (k: int)
    requires
        0 <= i <= a.len(),
        i <= b.len(),
        forall|j: int| 0 <= j < i ==> a[j] == b[j],
    ensures
        first_diff(a, b, k),
    decreases a.len() - i,
{
    if i == a.len() || i == b.len() || a[i] != b[i] {
        i
    } else {
        first_diff_from(a, b, i + 1)
    }
}

/// Any two sequences have a first difference.
pub proof fn first_diff_of(a: Seq<char>, b: Seq<char>) -> (k: int)
    ensures
        first_diff(a, b, k),
{
    first_diff_from(a, b, 0)
}

/// Of two different sequences one comes before the other.
pub proof fn lemma_chars_before_total(a: Seq<char>, b: Seq<char>)
    requires
        a != b,
    ensures
        chars_before(a, b) || chars_before(b, a),
{
    let k = first_diff_of(a, b);
    assert(first_diff(b, a, k));
    if k == a.len() && k == b.len() {
        assert(a =~= b);
    }
}

/// No sequence comes before itself.
pub proof fn lemma_chars_before_irreflexive(a: Seq<char>)
    ensures
        !chars_before(a, a),
{
    assert(first_diff(a, a, a.len() as int));
    if chars_before(a, a) {
        let k = choose|k: int| #[trigger] first_diff(a, a, k) && k < a.len() && (k == a.len() || a[k] < a[k]);
        lemma_first_diff_unique(a, a, k, a.len() as int);
    }
}

/// The order is transitive.
pub proof fn lemma_chars_before_transitive(a: Seq<char>, b: Seq<char>, c: Seq<char>)
    requires
        chars_before(a, b),
        chars_before(b, c),
    ensures
        chars_before(a, c),
{
    let k1 = choose|k: int| #[trigger] first_diff(a, b, k) && k < b.len() && (k == a.len() || a[k] < b[k]);
    let k2 = choose|k: int| #[trigger] first_diff(b, c, k) && k < c.len() && (k == b.len() || b[k] < c[k]);
    if k1 < k2 {
        assert(c[k1] == b[k1]);
        assert(first_diff(a, c, k1));
    } else if k2 < k1 {
        assert(a[k2] == b[k2]);
        assert(first_diff(a, c, k2));
    } else {
        assert(first_diff(a, c, k1));
    }
}

/// Whether `a` comes strictly before `b` (`a < b` on strings).
pub fn str_before(a: &str, b: &str) -> (r: bool)
    ensures
        r == chars_before(a@, b@),
{
    let ca = chars_of(a);
    let cb = chars_of(b);
    let mut i: usize = 0;
    while i < ca.len() && i < cb.len() && ca[i] == cb[i]
        invariant
            i <= ca@.len(),
            i <= cb@.len(),
            ca@ == a@,
            cb@ == b@,
            forall|j: int| 0 <= j < i ==> ca@[j] == cb@[j],
        decreases ca.len() - i,
    {
        i += 1;
    }
    assert(first_diff(a@, b@, i as int));
    let r = if i < ca.len() && i < cb.len() { ca[i] < cb[i] } else { i < cb.len() };
    proof {
        if chars_before(a@, b@) {
            let k = choose|k: int| #[trigger] first_diff(a@, b@, k) && k < b@.len() && (k == a@.len() || a@[k] < b@[k]);
            lemma_first_diff_unique(a@, b@, k, i as int);
        }
    }
    r
}

} // verus!
