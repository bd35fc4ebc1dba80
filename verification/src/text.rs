use vstd::prelude::*;
use vstd::string::*;
use vstd::utf8::*;

verus! {

broadcast use vstd::string::group_string_axioms;

// ---------------------------------------------------------------------------
// Characters
// ---------------------------------------------------------------------------

/// The characters of a string slice, in order.
pub fn chars_of(s: &str) -> (r: Vec<char>)
    ensures
        r@ == s@,
{
    let mut v: Vec<char> = Vec::new();
    for c in it: s.chars()
        invariant
            v@ == it.seq().take(it.index() as int),
            it.seq() == s@,
    {
        v.push(c);
    }
    v
}

/// Whether two character sequences are equal, one of them held in a vector.
pub fn same_chars(a: &Vec<char>, b: &str) -> (r: bool)
    ensures
        r == (a@ == b@),
{
    let bc = chars_of(b);
    if a.len() != bc.len() {
        return false;
    }
    let mut i: usize = 0;
    while i < a.len()
        invariant
            a@.len() == bc@.len(),
            bc@ == b@,
            i <= a.len(),
            forall|j: int| 0 <= j < i ==> a@[j] == bc@[j],
        decreases a.len() - i,
    {
        if a[i] != bc[i] {
            return false;
        }
        i = i + 1;
    }
    assert(a@ =~= b@);
    true
}

/// `String::push`: the character appended at the end.
#[verifier::external_body]
pub(crate) fn push_char(s: &mut String, c: char)
    ensures
        final(s)@ == old(s)@.push(c),
{
    s.push(c)
}

/// `String::pop`: the last character taken off, if there is one.
#[verifier::external_body]
pub(crate) fn pop_char(s: &mut String) -> (r: Option<char>)
    ensures
        old(s)@.len() > 0 ==> r == Some(old(s)@.last()) && final(s)@ == old(s)@.drop_last(),
        old(s)@.len() == 0 ==> r is None && final(s)@ == old(s)@,
{
    s.pop()
}

/// Unicode `White_Space` property, the whitespace that `str::trim` removes.
pub open spec fn is_white_space(c: char) -> bool {
    let u = c as u32;
    ||| 0x09 <= u <= 0x0D
    ||| u == 0x20
    ||| u == 0x85
    ||| u == 0xA0
    ||| u == 0x1680
    ||| 0x2000 <= u <= 0x200A
    ||| u == 0x2028
    ||| u == 0x2029
    ||| u == 0x202F
    ||| u == 0x205F
    ||| u == 0x3000
}

/// A sequence without its leading whitespace.
pub open spec fn trim_start(s: Seq<char>) -> Seq<char>
    decreases s.len(),
{
    if s.len() > 0 && is_white_space(s[0]) {
        trim_start(s.drop_first())
    } else {
        s
    }
}

/// A sequence without its trailing whitespace.
pub open spec fn trim_end(s: Seq<char>) -> Seq<char>
    decreases s.len(),
{
    if s.len() > 0 && is_white_space(s.last()) {
        trim_end(s.drop_last())
    } else {
        s
    }
}

/// A sequence without its leading and trailing whitespace.
pub open spec fn trimmed(s: Seq<char>) -> Seq<char> {
    trim_end(trim_start(s))
}

/// Whether a character has the Unicode `White_Space` property.
fn white_space(c: char) -> (r: bool)
    ensures
        r == is_white_space(c),
{
    let u = c as u32;
    (0x09 <= u && u <= 0x0D) || u == 0x20 || u == 0x85 || u == 0xA0 || u == 0x1680 || (0x2000
        <= u && u <= 0x200A) || u == 0x2028 || u == 0x2029 || u == 0x202F || u == 0x205F || u
        == 0x3000
}

/// The slice with leading and trailing Unicode whitespace removed, as
/// `str::trim` gives it.
pub fn trim_text(s: &str) -> (r: &str)
    ensures
        r@ == trimmed(s@),
{
    let cs = chars_of(s);
    let n = cs.len();
    let mut a: usize = 0;
    assert(s@.skip(0) =~= s@);
    while a < n && white_space(cs[a])
        invariant
            cs@ == s@,
            n == cs.len(),
            a <= n,
            trim_start(s@) == trim_start(s@.skip(a as int)),
        decreases n - a,
    {
        assert(s@.skip(a as int).drop_first() =~= s@.skip(a + 1));
        assert(s@.skip(a as int)[0] == cs@[a as int]);
        a = a + 1;
    }
    if a == n {
        assert(s@.skip(a as int) =~= Seq::<char>::empty());
    } else {
        assert(s@.skip(a as int)[0] == cs@[a as int]);
    }
    let ghost t1 = s@.skip(a as int);
    assert(trim_start(s@) == t1);
    let mut b: usize = n;
    assert(s@.subrange(a as int, b as int) =~= t1);
    while b > a && white_space(cs[b - 1])
        invariant
            cs@ == s@,
            n == cs.len(),
            a <= b <= n,
            trim_end(t1) == trim_end(s@.subrange(a as int, b as int)),
        decreases b,
    {
        assert(s@.subrange(a as int, b as int).drop_last() =~= s@.subrange(a as int, b - 1));
        assert(s@.subrange(a as int, b as int).last() == cs@[b - 1]);
        b = b - 1;
    }
    if b == a {
        assert(s@.subrange(a as int, b as int) =~= Seq::<char>::empty());
    } else {
        assert(s@.subrange(a as int, b as int).last() == cs@[b - 1]);
    }
    s.substring_char(a, b)
}

/// Name for what `str::to_lowercase` returns for a character sequence.
pub uninterp spec fn lowercase_of(s: Seq<char>) -> Seq<char>;

/// `str::to_lowercase`: the lowercase equivalent of the text, as a new string.
#[verifier::external_body]
pub(crate) fn to_lowercase(s: &str) -> (r: String)
    ensures
        r@ == lowercase_of(s@),
{
    s.to_lowercase()
}

// ---------------------------------------------------------------------------
// Searching
// ---------------------------------------------------------------------------

/// `needle` occurs in `hay` starting at character position `i`.
pub open spec fn occurs_at(hay: Seq<char>, needle: Seq<char>, i: int) -> bool {
    0 <= i && i + needle.len() <= hay.len() && hay.subrange(i, i + needle.len()) == needle
}

/// The first character position at or after `i` where `needle` occurs in `hay`.
pub open spec fn first_occurrence_from(hay: Seq<char>, needle: Seq<char>, i: int) -> Option<int>
    decreases hay.len() + 1 - i,
{
    if i < 0 || i + needle.len() > hay.len() {
        None
    } else if occurs_at(hay, needle, i) {
        Some(i)
    } else {
        first_occurrence_from(hay, needle, i + 1)
    }
}

/// The first character position where `needle` occurs in `hay`.
pub open spec fn first_occurrence(hay: Seq<char>, needle: Seq<char>) -> Option<int> {
    first_occurrence_from(hay, needle, 0)
}

/// Length in bytes of the UTF-8 encoding of a character sequence.
pub open spec fn utf8_len(s: Seq<char>) -> nat {
    encode_utf8(s).len()
}

/// `str::find` with a string pattern: the byte index at which the first
/// occurrence of `needle` starts, or `None` when there is none.
#[verifier::external_body]
pub(crate) fn find_text(hay: &str, needle: &str) -> (r: Option<usize>)
    ensures
        r is None <==> first_occurrence(hay@, needle@) is None,
        r matches Some(b) ==> (first_occurrence(hay@, needle@) matches Some(i) && b as int
            == utf8_len(hay@.take(i)) && utf8_len(hay@) <= usize::MAX),
{
    hay.find(needle)
}

/// `str::len` on a slice whose byte length is known to fit in `usize`.
pub(crate) fn byte_len(s: &str) -> (r: usize)
    requires
        utf8_len(s@) <= usize::MAX,
    ensures
        r as int == utf8_len(s@),
{
    s.len()
}

pub proof fn lemma_utf8_len_concat(a: Seq<char>, b: Seq<char>)
    ensures
        utf8_len(a + b) == utf8_len(a) + utf8_len(b),
    decreases a.len(),
{
    if a.len() == 0 {
        assert(a + b =~= b);
    } else {
        lemma_utf8_len_concat(a.drop_first(), b);
        assert((a + b).drop_first() =~= a.drop_first() + b);
        assert((a + b)[0] == a[0]);
    }
}

pub proof fn lemma_first_occurrence_from(hay: Seq<char>, needle: Seq<char>, i: int)
    requires
        0 <= i,
    ensures
        first_occurrence_from(hay, needle, i) matches Some(k) ==> (i <= k && occurs_at(hay, needle, k)
            && forall|j: int| i <= j < k ==> !occurs_at(hay, needle, j)),
        first_occurrence_from(hay, needle, i) is None ==> forall|j: int|
            i <= j ==> !occurs_at(hay, needle, j),
    decreases hay.len() + 1 - i,
{
    if i + needle.len() > hay.len() {
    } else if occurs_at(hay, needle, i) {
    } else {
        lemma_first_occurrence_from(hay, needle, i + 1);
    }
}

/// An occurrence found at a byte index ends within the text.
pub proof fn lemma_occurrence_bytes(hay: Seq<char>, needle: Seq<char>, i: int)
    requires
        occurs_at(hay, needle, i),
    ensures
        utf8_len(hay.take(i)) + utf8_len(needle) <= utf8_len(hay),
{
    let n = needle.len() as int;
    assert(hay =~= hay.take(i) + needle + hay.skip(i + n));
    lemma_utf8_len_concat(hay.take(i) + needle, hay.skip(i + n));
    lemma_utf8_len_concat(hay.take(i), needle);
}

/// `needle` occurs somewhere in `hay`.
pub open spec fn contains_text(hay: Seq<char>, needle: Seq<char>) -> bool {
    exists|i: int| occurs_at(hay, needle, i)
}

/// Whether `needle` occurs in `hay`.
pub fn text_contains(hay: &str, needle: &str) -> (r: bool)
    ensures
        r == contains_text(hay@, needle@),
{
    proof {
        lemma_first_occurrence_from(hay@, needle@, 0);
    }
    find_text(hay, needle).is_some()
}

// ---------------------------------------------------------------------------
// Decimal numbers
// ---------------------------------------------------------------------------

/// The character of a decimal digit.
pub open spec fn digit_char(d: nat) -> char {
    if d == 0 {
        '0'
    } else if d == 1 {
        '1'
    } else if d == 2 {
        '2'
    } else if d == 3 {
        '3'
    } else if d == 4 {
        '4'
    } else if d == 5 {
        '5'
    } else if d == 6 {
        '6'
    } else if d == 7 {
        '7'
    } else if d == 8 {
        '8'
    } else {
        '9'
    }
}

/// Decimal notation of a natural number, without sign or leading zeros.
pub open spec fn decimal_text(n: nat) -> Seq<char>
    decreases n,
{
    if n < 10 {
        seq![digit_char(n)]
    } else {
        decimal_text(n / 10).push(digit_char(n % 10))
    }
}

fn digit_str(d: u64) -> (r: &'static str)
    requires
        d < 10,
    ensures
        r@ == seq![digit_char(d as nat)],
{
    if d == 0 {
        proof {
            reveal_strlit("0");
        }
        "0"
    } else if d == 1 {
        proof {
            reveal_strlit("1");
        }
        "1"
    } else if d == 2 {
        proof {
            reveal_strlit("2");
        }
        "2"
    } else if d == 3 {
        proof {
            reveal_strlit("3");
        }
        "3"
    } else if d == 4 {
        proof {
            reveal_strlit("4");
        }
        "4"
    } else if d == 5 {
        proof {
            reveal_strlit("5");
        }
        "5"
    } else if d == 6 {
        proof {
            reveal_strlit("6");
        }
        "6"
    } else if d == 7 {
        proof {
            reveal_strlit("7");
        }
        "7"
    } else if d == 8 {
        proof {
            reveal_strlit("8");
        }
        "8"
    } else {
        proof {
            reveal_strlit("9");
        }
        "9"
    }
}

/// Decimal notation of a number, as `u64::to_string` writes it.
pub fn decimal(n: u64) -> (r: String)
    ensures
        r@ == decimal_text(n as nat),
    decreases n,
{
    if n < 10 {
        let mut s = String::new();
        s.append(digit_str(n));
        s
    } else {
        let mut s = decimal(n / 10);
        s.append(digit_str(n % 10));
        s
    }
}

/// Appends the decimal notation of `n` to `s`.
pub fn push_decimal(s: &mut String, n: u64)
    ensures
        final(s)@ == old(s)@ + decimal_text(n as nat),
{
    let d = decimal(n);
    s.append(d.as_str());
}

/// An ASCII decimal digit.
pub open spec fn is_digit(c: char) -> bool {
    48 <= (c as u32) <= 57
}

/// The value of a decimal digit character.
pub open spec fn digit_value(c: char) -> nat {
    ((c as u32) - 48) as nat
}

/// The number that a sequence of decimal digits denotes.
pub open spec fn digits_value(s: Seq<char>) -> nat
    decreases s.len(),
{
    if s.len() == 0 {
        0
    } else {
        digits_value(s.drop_last()) * 10 + digit_value(s.last())
    }
}

pub open spec fn all_digits(s: Seq<char>) -> bool {
    forall|i: int| 0 <= i < s.len() ==> is_digit(#[trigger] s[i])
}

/// The digits that `usize::from_str` reads: an optional leading `+` is dropped.
pub open spec fn unsigned_digits(s: Seq<char>) -> Seq<char> {
    if s.len() > 0 && s[0] == '+' {
        s.drop_first()
    } else {
        s
    }
}

/// What `usize::from_str` gives for a text: the number when the text is an
/// optional `+` followed by one or more decimal digits whose value fits.
pub open spec fn parsed_usize(s: Seq<char>) -> Option<usize> {
    let d = unsigned_digits(s);
    if d.len() > 0 && all_digits(d) && digits_value(d) <= usize::MAX {
        Some(digits_value(d) as usize)
    } else {
        None
    }
}

proof fn lemma_digits_value_grows(s: Seq<char>, k: int)
    requires
        0 <= k <= s.len(),
    ensures
        digits_value(s.take(k)) <= digits_value(s),
    decreases s.len() - k,
{
    if k < s.len() {
        lemma_digits_value_grows(s, k + 1);
        assert(s.take(k + 1).drop_last() =~= s.take(k));
    } else {
        assert(s.take(k) =~= s);
    }
}

/// Reads an unsigned decimal number as `usize::from_str` does.
pub fn parse_usize(s: &str) -> (r: Option<usize>)
    ensures
        r == parsed_usize(s@),
{
    let cs = chars_of(s);
    let ghost d = unsigned_digits(s@);
    let start: usize = if cs.len() > 0 && cs[0] == '+' { 1 } else { 0 };
    assert(d =~= cs@.skip(start as int));
    if start >= cs.len() {
        return None;
    }
    let mut acc: usize = 0;
    let mut i: usize = start;
    while i < cs.len()
        invariant
            cs@ == s@,
            d == cs@.skip(start as int),
            d == unsigned_digits(s@),
            start <= i <= cs.len(),
            start < cs.len(),
            acc as nat == digits_value(d.take(i - start)),
            all_digits(d.take(i - start)),
        decreases cs.len() - i,
    {
        let c = cs[i];
        let ghost k: int = i - start;
        assert(d.take(k + 1).drop_last() =~= d.take(k));
        assert(d[k] == c);
        let cu: u32 = c as u32;
        if !(48 <= cu && cu <= 57) {
            assert(!is_digit(d[k]));
            assert(!all_digits(d));
            return None;
        }
        let dv: usize = (cu - 48) as usize;
        match acc.checked_mul(10) {
            None => {
                proof {
                    lemma_digits_value_grows(d, k + 1);
                }
                return None;
            },
            Some(m) => match m.checked_add(dv) {
                None => {
                    proof {
                        lemma_digits_value_grows(d, k + 1);
                    }
                    return None;
                },
                Some(v) => {
                    acc = v;
                },
            },
        }
        assert forall|j: int| 0 <= j < k + 1 implies is_digit(#[trigger] d.take(k + 1)[j]) by {
            if j < k {
                assert(d.take(k + 1)[j] == d.take(k)[j]);
            }
        }
        i = i + 1;
    }
    assert(d.take(i - start) =~= d);
    Some(acc)
}

/// Reading back a number's decimal notation gives the number.
pub proof fn lemma_decimal_roundtrip(n: nat)
    ensures
        decimal_text(n).len() > 0,
        all_digits(decimal_text(n)),
        decimal_text(n)[0] != '+',
        digits_value(decimal_text(n)) == n,
    decreases n,
{
    if n < 10 {
        assert(decimal_text(n) =~= seq![digit_char(n)]);
        assert(digits_value(seq![digit_char(n)].drop_last()) == 0) by {
            assert(seq![digit_char(n)].drop_last() =~= Seq::<char>::empty());
        }
    } else {
        lemma_decimal_roundtrip(n / 10);
        let t = decimal_text(n);
        assert(t.drop_last() =~= decimal_text(n / 10));
        assert(digits_value(t) == (n / 10) * 10 + n % 10);
        assert forall|j: int| 0 <= j < t.len() implies is_digit(#[trigger] t[j]) by {
            if j < t.len() - 1 {
                assert(t[j] == decimal_text(n / 10)[j]);
            }
        }
    }
}

/// Reading a number back from its decimal notation gives the number.
pub proof fn lemma_parse_decimal(n: usize)
    ensures
        parsed_usize(decimal_text(n as nat)) == Some(n),
{
    lemma_decimal_roundtrip(n as nat);
}

} // verus!
