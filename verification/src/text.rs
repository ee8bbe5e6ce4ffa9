//! Character-level model of the string operations the workspace rules use.
use vstd::prelude::*;

verus! {

/// `char::is_whitespace`: the Unicode `White_Space` property.
pub open spec fn is_ws(c: char) -> bool {
    let u = c as u32;
    ||| 0x9 <= u <= 0xD
    ||| u == 0x20
    ||| u == 0x85
    ||| u == 0xA0
    ||| u == 0x1680
    ||| 0x2000 <= u <= 0x200A
    ||| u == 0x2028
    ||| u == 0x2029
    ||| u == 0x202F
    ||| u == 0x205F
    ||| u == 0x3000
}

/// `char::is_control`: the Unicode general category `Cc`.
pub open spec fn is_ctrl(c: char) -> bool {
    let u = c as u32;
    u <= 0x1F || (0x7F <= u <= 0x9F)
}

pub fn is_whitespace(c: char) -> (r: bool)
    ensures
        r == is_ws(c),
{
    let u = c as u32;
    (0x9 <= u && u <= 0xD) || u == 0x20 || u == 0x85 || u == 0xA0 || u == 0x1680 || (0x2000
        <= u && u <= 0x200A) || u == 0x2028 || u == 0x2029 || u == 0x202F || u == 0x205F || u
        == 0x3000
}

pub fn is_control(c: char) -> (r: bool)
    ensures
        r == is_ctrl(c),
{
    let u = c as u32;
    u <= 0x1F || (0x7F <= u && u <= 0x9F)
}

/// The characters of `s`, in order.
pub fn chars_of(s: &str) -> (v: Vec<char>)
    ensures
        v@ == s@,
{
    let mut v: Vec<char> = Vec::new();
    for c in it: s.chars()
        invariant
            v@ == it.seq().take(it.index() as int),
            it.seq() == s@,
    {
        v.push(c);
    }
    v
}

} // verus!

verus! {

/// Appends one character (`String::push`).
#[verifier::external_body]
pub(crate) fn push_char(s: &mut String, c: char)
    ensures
        final(s)@ == old(s)@.push(c),
{
    s.push(c)
}

/// The string whose characters are `v`.
pub fn string_of(v: &[char]) -> (s: String)
    ensures
        s@ == v@,
{
    let mut s = String::new();
    let mut i: usize = 0;
    while i < v.len()
        invariant
            i <= v@.len(),
            s@ == v@.take(i as int),
        decreases v@.len() - i,
    {
        push_char(&mut s, v[i]);
        assert(v@.take(i as int).push(v@[i as int]) =~= v@.take(i + 1));
        i += 1;
    }
    assert(v@.take(v@.len() as int) =~= v@);
    s
}

/// A copy of `v[from..to]`.
pub fn slice_chars(v: &[char], from: usize, to: usize) -> (r: Vec<char>)
    requires
        from <= to <= v@.len(),
    ensures
        r@ == v@.subrange(from as int, to as int),
{
    let mut r: Vec<char> = Vec::new();
    let mut i = from;
    while i < to
        invariant
            from <= i <= to <= v@.len(),
            r@ == v@.subrange(from as int, i as int),
        decreases to - i,
    {
        r.push(v[i]);
        assert(v@.subrange(from as int, i as int).push(v@[i as int]) =~= v@.subrange(
            from as int,
            i + 1,
        ));
        i += 1;
    }
    r
}

pub fn chars_eq(a: &[char], b: &[char]) -> (r: bool)
    ensures
        r == (a@ == b@),
{
    if a.len() != b.len() {
        return false;
    }
    let mut i: usize = 0;
    while i < a.len()
        invariant
            a@.len() == b@.len(),
            i <= a@.len(),
            forall|j: int| 0 <= j < i ==> a@[j] == b@[j],
        decreases a@.len() - i,
    {
        if a[i] != b[i] {
            return false;
        }
        i += 1;
    }
    assert(a@ =~= b@);
    true
}

pub fn str_eq(a: &str, b: &str) -> (r: bool)
    ensures
        r == (a@ == b@),
{
    let va = chars_of(a);
    let vb = chars_of(b);
    chars_eq(&va, &vb)
}

pub open spec fn trim_start(s: Seq<char>) -> Seq<char>
    decreases s.len(),
{
    if s.len() > 0 && is_ws(s[0]) {
        trim_start(s.drop_first())
    } else {
        s
    }
}

pub open spec fn trim_end(s: Seq<char>) -> Seq<char>
    decreases s.len(),
{
    if s.len() > 0 && is_ws(s.last()) {
        trim_end(s.drop_last())
    } else {
        s
    }
}

/// `str::trim`: no leading or trailing white space.
pub open spec fn trim(s: Seq<char>) -> Seq<char> {
    trim_end(trim_start(s))
}

pub proof fn lemma_trim_start_skip(s: Seq<char>, i: int)
    requires
        0 <= i <= s.len(),
        forall|j: int| 0 <= j < i ==> is_ws(#[trigger] s[j]),
    ensures
        trim_start(s) == trim_start(s.subrange(i, s.len() as int)),
    decreases i,
{
    if i == 0 {
        assert(s.subrange(0, s.len() as int) =~= s);
    } else {
        assert(is_ws(s[0]));
        let t = s.drop_first();
        assert forall|j: int| 0 <= j < i - 1 implies is_ws(#[trigger] t[j]) by {
            assert(t[j] == s[j + 1]);
        }
        lemma_trim_start_skip(t, i - 1);
        assert(t.subrange(i - 1, t.len() as int) =~= s.subrange(i, s.len() as int));
    }
}

pub proof fn lemma_trim_end_skip(s: Seq<char>, k: int)
    requires
        0 <= k <= s.len(),
        forall|j: int| k <= j < s.len() ==> is_ws(#[trigger] s[j]),
    ensures
        trim_end(s) == trim_end(s.subrange(0, k)),
    decreases s.len() - k,
{
    if k == s.len() {
        assert(s.subrange(0, k) =~= s);
    } else {
        assert(is_ws(s.last()));
        let t = s.drop_last();
        assert forall|j: int| k <= j < t.len() implies is_ws(#[trigger] t[j]) by {
            assert(t[j] == s[j]);
        }
        lemma_trim_end_skip(t, k);
        assert(t.subrange(0, k) =~= s.subrange(0, k));
    }
}

proof fn lemma_trim_start_first(s: Seq<char>)
    ensures
        trim_start(s).len() > 0 ==> !is_ws(trim_start(s)[0]),
    decreases s.len(),
{
    if s.len() > 0 && is_ws(s[0]) {
        lemma_trim_start_first(s.drop_first());
    }
}

proof fn lemma_trim_end_shape(s: Seq<char>)
    ensures
        trim_end(s).len() <= s.len(),
        trim_end(s) == s.take(trim_end(s).len() as int),
        trim_end(s).len() > 0 ==> !is_ws(trim_end(s).last()),
    decreases s.len(),
{
    if s.len() > 0 && is_ws(s.last()) {
        lemma_trim_end_shape(s.drop_last());
        let t = trim_end(s.drop_last());
        assert(s.drop_last().take(t.len() as int) =~= s.take(t.len() as int));
    } else {
        assert(s.take(s.len() as int) =~= s);
    }
}

/// Trimming twice is trimming once.
pub proof fn lemma_trim_idempotent(s: Seq<char>)
    ensures
        trim(trim(s)) == trim(s),
{
    let u = trim_start(s);
    let t = trim_end(u);
    lemma_trim_start_first(s);
    lemma_trim_end_shape(u);
    if t.len() > 0 {
        assert(t[0] == u[0]);
        assert(trim_start(t) == t);
        assert(trim_end(t) == t);
    } else {
        assert(trim_start(t) == t);
        assert(trim_end(t) == t);
    }
}

/// Index bounds of the trimmed part of `v`.
pub fn trim_bounds(v: &[char]) -> (r: (usize, usize))
    ensures
        r.0 <= r.1 <= v@.len(),
        v@.subrange(r.0 as int, r.1 as int) == trim(v@),
{
    let mut i: usize = 0;
    while i < v.len() && is_whitespace(v[i])
        invariant
            i <= v@.len(),
            forall|j: int| 0 <= j < i ==> is_ws(#[trigger] v@[j]),
        decreases v@.len() - i,
    {
        i += 1;
    }
    let mut k: usize = v.len();
    while k > i && is_whitespace(v[k - 1])
        invariant
            i <= k <= v@.len(),
            forall|j: int| k <= j < v@.len() ==> is_ws(#[trigger] v@[j]),
        decreases k,
    {
        k -= 1;
    }
    proof {
        lemma_trim_start_skip(v@, i as int);
        let t = v@.subrange(i as int, v@.len() as int);
        if i < v@.len() {
            assert(!is_ws(t[0]));
        }
        assert(trim_start(t) == t);
        assert forall|j: int| k - i <= j < t.len() implies is_ws(#[trigger] t[j]) by {
            assert(t[j] == v@[j + i]);
        }
        lemma_trim_end_skip(t, k - i);
        let u = t.subrange(0, k - i);
        assert(u =~= v@.subrange(i as int, k as int));
        if k > i {
            assert(u.last() == v@[k - 1]);
        }
        assert(trim_end(u) == u);
    }
    (i, k)
}

/// `str::trim` on a character vector.
pub fn trim_chars(v: &[char]) -> (r: Vec<char>)
    ensures
        r@ == trim(v@),
{
    let (i, k) = trim_bounds(v);
    slice_chars(v, i, k)
}

/// `str::trim().to_owned()`.
pub fn trim_string(s: &str) -> (r: String)
    ensures
        r@ == trim(s@),
{
    let v = chars_of(s);
    let t = trim_chars(&v);
    string_of(&t)
}

pub open spec fn has_ws(s: Seq<char>) -> bool {
    exists|i: int| 0 <= i < s.len() && is_ws(#[trigger] s[i])
}

pub fn any_whitespace(v: &[char]) -> (r: bool)
    ensures
        r == has_ws(v@),
{
    let mut i: usize = 0;
    while i < v.len()
        invariant
            i <= v@.len(),
            forall|j: int| 0 <= j < i ==> !is_ws(#[trigger] v@[j]),
        decreases v@.len() - i,
    {
        if is_whitespace(v[i]) {
            return true;
        }
        i += 1;
    }
    false
}

pub open spec fn has_ctrl(s: Seq<char>) -> bool {
    exists|i: int| 0 <= i < s.len() && is_ctrl(#[trigger] s[i])
}

pub fn any_control(v: &[char]) -> (r: bool)
    ensures
        r == has_ctrl(v@),
{
    let mut i: usize = 0;
    while i < v.len()
        invariant
            i <= v@.len(),
            forall|j: int| 0 <= j < i ==> !is_ctrl(#[trigger] v@[j]),
        decreases v@.len() - i,
    {
        if is_control(v[i]) {
            return true;
        }
        i += 1;
    }
    false
}

pub open spec fn has_char(s: Seq<char>, c: char) -> bool {
    exists|i: int| 0 <= i < s.len() && #[trigger] s[i] == c
}

pub fn contains_char(v: &[char], c: char) -> (r: bool)
    ensures
        r == has_char(v@, c),
{
    let mut i: usize = 0;
    while i < v.len()
        invariant
            i <= v@.len(),
            forall|j: int| 0 <= j < i ==> #[trigger] v@[j] != c,
        decreases v@.len() - i,
    {
        if v[i] == c {
            return true;
        }
        i += 1;
    }
    false
}

} // verus!

verus! {

/// Position of the first `c` in `s`, or `s.len()` when there is none.
pub open spec fn idx_of(s: Seq<char>, c: char) -> int
    decreases s.len(),
{
    if s.len() == 0 {
        0
    } else if s[0] == c {
        0
    } else {
        1 + idx_of(s.drop_first(), c)
    }
}

pub proof fn lemma_idx_of(s: Seq<char>, c: char)
    ensures
        0 <= idx_of(s, c) <= s.len(),
        forall|j: int| 0 <= j < idx_of(s, c) ==> s[j] != c,
        idx_of(s, c) < s.len() ==> s[idx_of(s, c)] == c,
        idx_of(s, c) == s.len() <==> !has_char(s, c),
    decreases s.len(),
{
    if s.len() > 0 && s[0] != c {
        let t = s.drop_first();
        lemma_idx_of(t, c);
        assert forall|j: int| 0 <= j < idx_of(s, c) implies s[j] != c by {
            if j > 0 {
                assert(s[j] == t[j - 1]);
            }
        }
        if has_char(s, c) {
            let k = choose|k: int| 0 <= k < s.len() && s[k] == c;
            assert(t[k - 1] == c);
        }
        if has_char(t, c) {
            let k = choose|k: int| 0 <= k < t.len() && t[k] == c;
            assert(s[k + 1] == c);
        }
    }
}

/// Position of the first white-space character of `s`, or `s.len()`.
pub open spec fn idx_ws(s: Seq<char>) -> int
    decreases s.len(),
{
    if s.len() == 0 {
        0
    } else if is_ws(s[0]) {
        0
    } else {
        1 + idx_ws(s.drop_first())
    }
}

pub proof fn lemma_idx_ws(s: Seq<char>)
    ensures
        0 <= idx_ws(s) <= s.len(),
        forall|j: int| 0 <= j < idx_ws(s) ==> !is_ws(s[j]),
        idx_ws(s) < s.len() ==> is_ws(s[idx_ws(s)]),
        idx_ws(s) == s.len() <==> !has_ws(s),
    decreases s.len(),
{
    if s.len() > 0 && !is_ws(s[0]) {
        let t = s.drop_first();
        lemma_idx_ws(t);
        assert forall|j: int| 0 <= j < idx_ws(s) implies !is_ws(s[j]) by {
            if j > 0 {
                assert(s[j] == t[j - 1]);
            }
        }
        if has_ws(s) {
            let k = choose|k: int| 0 <= k < s.len() && is_ws(s[k]);
            assert(is_ws(t[k - 1]));
        }
        if has_ws(t) {
            let k = choose|k: int| 0 <= k < t.len() && is_ws(t[k]);
            assert(is_ws(s[k + 1]));
        }
    }
}

pub fn find_char(v: &[char], c: char) -> (r: usize)
    ensures
        r == idx_of(v@, c),
{
    proof {
        lemma_idx_of(v@, c);
    }
    let mut i: usize = 0;
    while i < v.len() && v[i] != c
        invariant
            i <= v@.len(),
            forall|j: int| 0 <= j < i ==> #[trigger] v@[j] != c,
            0 <= idx_of(v@, c) <= v@.len(),
            forall|j: int| 0 <= j < idx_of(v@, c) ==> v@[j] != c,
            idx_of(v@, c) < v@.len() ==> v@[idx_of(v@, c)] == c,
        decreases v@.len() - i,
    {
        i += 1;
    }
    i
}

pub fn find_whitespace(v: &[char]) -> (r: usize)
    ensures
        r == idx_ws(v@),
{
    proof {
        lemma_idx_ws(v@);
    }
    let mut i: usize = 0;
    while i < v.len() && !is_whitespace(v[i])
        invariant
            i <= v@.len(),
            forall|j: int| 0 <= j < i ==> !is_ws(#[trigger] v@[j]),
            0 <= idx_ws(v@) <= v@.len(),
            forall|j: int| 0 <= j < idx_ws(v@) ==> !is_ws(v@[j]),
            idx_ws(v@) < v@.len() ==> is_ws(v@[idx_ws(v@)]),
        decreases v@.len() - i,
    {
        i += 1;
    }
    i
}

/// `char::to_ascii_lowercase`.
pub open spec fn ascii_lower_char(c: char) -> char {
    if 'A' <= c <= 'Z' {
        ((c as u32) + 32) as char
    } else {
        c
    }
}

/// `str::to_ascii_lowercase`.
pub open spec fn ascii_lower(s: Seq<char>) -> Seq<char> {
    s.map_values(|c: char| ascii_lower_char(c))
}

pub fn to_ascii_lower_char(c: char) -> (r: char)
    ensures
        r == ascii_lower_char(c),
{
    if 'A' <= c && c <= 'Z' {
        ((c as u8) + 32) as char
    } else {
        c
    }
}

pub fn to_ascii_lower(v: &[char]) -> (r: Vec<char>)
    ensures
        r@ == ascii_lower(v@),
{
    let mut r: Vec<char> = Vec::new();
    let mut i: usize = 0;
    while i < v.len()
        invariant
            i <= v@.len(),
            r@ == ascii_lower(v@.take(i as int)),
        decreases v@.len() - i,
    {
        r.push(to_ascii_lower_char(v[i]));
        assert(ascii_lower(v@.take(i as int)).push(ascii_lower_char(v@[i as int])) =~= ascii_lower(
            v@.take(i + 1),
        ));
        i += 1;
    }
    assert(v@.take(v@.len() as int) =~= v@);
    r
}

/// `str::eq_ignore_ascii_case`.
pub fn eq_ignore_ascii_case(a: &[char], b: &[char]) -> (r: bool)
    ensures
        r == (ascii_lower(a@) == ascii_lower(b@)),
{
    let la = to_ascii_lower(a);
    let lb = to_ascii_lower(b);
    chars_eq(&la, &lb)
}

} // verus!

verus! {

pub open spec fn is_digit(c: char) -> bool {
    '0' <= c <= '9'
}

pub open spec fn digit_value(c: char) -> int {
    (c as int) - ('0' as int)
}

/// Decimal value of a string of digits.
pub open spec fn dec_value(s: Seq<char>) -> int
    decreases s.len(),
{
    if s.len() == 0 {
        0
    } else {
        dec_value(s.drop_last()) * 10 + digit_value(s.last())
    }
}

pub open spec fn all_digits(s: Seq<char>) -> bool {
    forall|i: int| 0 <= i < s.len() ==> is_digit(#[trigger] s[i])
}

/// The digits that `FromStr` for an unsigned integer reads: one leading `+` is allowed.
pub open spec fn unsigned_digits(s: Seq<char>) -> Seq<char> {
    if s.len() > 0 && s[0] == '+' {
        s.drop_first()
    } else {
        s
    }
}

/// `str::parse` for an unsigned integer type whose largest value is `max`.
pub open spec fn parse_unsigned(s: Seq<char>, max: int) -> Option<int> {
    let d = unsigned_digits(s);
    if d.len() > 0 && all_digits(d) && dec_value(d) <= max {
        Some(dec_value(d))
    } else {
        None
    }
}

/// The decimal digit of a value below ten.
pub open spec fn digit_char(d: int) -> char {
    (('0' as int) + d) as char
}

/// The decimal text of a number, without leading zeros (`to_string` of an unsigned integer).
pub open spec fn dec_text(n: nat) -> Seq<char>
    decreases n,
{
    if n < 10 {
        seq![digit_char(n as int)]
    } else {
        dec_text(n / 10).push(digit_char((n % 10) as int))
    }
}

/// Decimal text reads back as the number it was written from.
pub proof fn lemma_dec_text_reads_back(n: nat)
    ensures
        dec_text(n).len() > 0,
        all_digits(dec_text(n)),
        dec_value(dec_text(n)) == n,
        dec_text(n)[0] != '+',
    decreases n,
{
    if n >= 10 {
        lemma_dec_text_reads_back(n / 10);
        let t = dec_text(n / 10);
        let u = dec_text(n);
        assert(u.drop_last() =~= t);
        assert forall|i: int| 0 <= i < u.len() implies is_digit(#[trigger] u[i]) by {
            if i < t.len() {
                assert(u[i] == t[i]);
            }
        }
        assert(u[0] == t[0]);
        assert(u.last() == digit_char((n % 10) as int));
        assert(digit_value(digit_char((n % 10) as int)) == n % 10);
        assert(dec_value(u) == dec_value(t) * 10 + n % 10);
        assert(n / 10 * 10 + n % 10 == n);
    } else {
        let u = dec_text(n);
        assert(u.drop_last() =~= Seq::<char>::empty());
        assert(u.last() == digit_char(n as int));
        assert(digit_value(digit_char(n as int)) == n);
        assert(dec_value(u) == dec_value(Seq::<char>::empty()) * 10 + n);
    }
}

/// `to_string` of a `u8`: its decimal text.
pub fn decimal_text(v: u8) -> (r: String)
    ensures
        r@ == dec_text(v as nat),
{
    let mut r = String::new();
    if v >= 100 {
        push_char(&mut r, (48u8 + v / 100) as char);
    }
    if v >= 10 {
        push_char(&mut r, (48u8 + (v / 10) % 10) as char);
    }
    push_char(&mut r, (48u8 + v % 10) as char);
    proof {
        let n = v as nat;
        if v >= 100 {
            assert(dec_text(n / 100) == seq![digit_char((n / 100) as int)]);
            assert(dec_text(n / 10) == dec_text(n / 100).push(digit_char((n / 10 % 10) as int)));
            assert(n / 10 / 10 == n / 100);
        } else if v >= 10 {
            assert(dec_text(n / 10) == seq![digit_char((n / 10) as int)]);
        }
        assert(r@ =~= dec_text(n));
    }
    r
}

pub proof fn lemma_dec_value_prefix(s: Seq<char>, k: int)
    requires
        0 <= k <= s.len(),
        all_digits(s),
    ensures
        0 <= dec_value(s.take(k)) <= dec_value(s),
    decreases s.len() - k,
{
    if k == s.len() {
        assert(s.take(k) =~= s);
        lemma_dec_value_nonneg(s);
    } else {
        lemma_dec_value_prefix(s, k + 1);
        assert(s.take(k + 1).drop_last() =~= s.take(k));
        assert(is_digit(s[k]));
        lemma_dec_value_nonneg(s.take(k));
    }
}

pub proof fn lemma_dec_value_nonneg(s: Seq<char>)
    requires
        all_digits(s),
    ensures
        dec_value(s) >= 0,
    decreases s.len(),
{
    if s.len() > 0 {
        assert(is_digit(s.last()));
        lemma_dec_value_nonneg(s.drop_last());
    }
}

/// Decimal parse of `v` into a value no greater than `max`.
pub fn parse_decimal(v: &[char], max: u32) -> (r: Option<u32>)
    requires
        max <= 0xFFFF,
    ensures
        match r {
            Some(x) => parse_unsigned(v@, max as int) == Some(x as int),
            None => parse_unsigned(v@, max as int) is None,
        },
{
    let ghost d = unsigned_digits(v@);
    let start: usize = if v.len() > 0 && v[0] == '+' {
        1
    } else {
        0
    };
    assert(d =~= v@.subrange(start as int, v@.len() as int));
    if start == v.len() {
        return None;
    }
    let mut acc: u32 = 0;
    let mut i = start;
    while i < v.len()
        invariant
            start <= i <= v@.len(),
            start < v@.len(),
            d == unsigned_digits(v@),
            d =~= v@.subrange(start as int, v@.len() as int),
            all_digits(d.take(i - start)),
            acc as int == dec_value(d.take(i - start)),
            acc <= max,
            max <= 0xFFFF,
        decreases v@.len() - i,
    {
        let c = v[i];
        if !('0' <= c && c <= '9') {
            assert(d[i - start] == c);
            assert(!is_digit(d[i - start]));
            return None;
        }
        let digit = (c as u32) - ('0' as u32);
        let next = acc * 10 + digit;
        proof {
            assert(d.take(i + 1 - start).drop_last() =~= d.take(i - start));
            assert(d.take(i + 1 - start).last() == c);
            assert(all_digits(d.take(i + 1 - start))) by {
                assert forall|j: int| 0 <= j < i + 1 - start implies is_digit(
                    #[trigger] d.take(i + 1 - start)[j],
                ) by {
                    if j < i - start {
                        assert(d.take(i + 1 - start)[j] == d.take(i - start)[j]);
                    }
                }
            }
        }
        if next > max {
            proof {
                if all_digits(d) {
                    lemma_dec_value_prefix(d, i + 1 - start);
                }
            }
            return None;
        }
        acc = next;
        i += 1;
    }
    assert(d.take(d.len() as int) =~= d);
    Some(acc)
}

pub fn parse_u16(v: &[char]) -> (r: Option<u16>)
    ensures
        match r {
            Some(x) => parse_unsigned(v@, 0xFFFF) == Some(x as int),
            None => parse_unsigned(v@, 0xFFFF) is None,
        },
{
    match parse_decimal(v, 0xFFFF) {
        Some(x) => Some(x as u16),
        None => None,
    }
}

pub fn parse_u8(v: &[char]) -> (r: Option<u8>)
    ensures
        match r {
            Some(x) => parse_unsigned(v@, 0xFF) == Some(x as int),
            None => parse_unsigned(v@, 0xFF) is None,
        },
{
    match parse_decimal(v, 0xFF) {
        Some(x) => Some(x as u8),
        None => None,
    }
}

} // verus!

verus! {

/// What `str::to_lowercase` returns for a text (full Unicode case mapping).
pub uninterp spec fn spec_to_lowercase(s: Seq<char>) -> Seq<char>;

/// Calls `str::to_lowercase`.
#[verifier::external_body]
pub(crate) fn to_lowercase(s: &str) -> (r: String)
    ensures
        r@ == spec_to_lowercase(s@),
{
    s.to_lowercase()
}

/// The `Debug` text of a string: quoted, with quotes, backslashes and control
/// characters escaped.
pub uninterp spec fn spec_debug_text(s: Seq<char>) -> Seq<char>;

/// Calls `<str as Debug>::fmt` through `format!("{:?}")`; the text is a function of the
/// string alone, named `spec_debug_text`.
#[verifier::external_body]
pub(crate) fn debug_text(s: &str) -> (r: String)
    ensures
        r@ == spec_debug_text(s@),
{
    format!("{:?}", s)
}

/// `str::trim_end_matches(c)` for one character.
pub open spec fn trim_end_char(s: Seq<char>, c: char) -> Seq<char>
    decreases s.len(),
{
    if s.len() > 0 && s.last() == c {
        trim_end_char(s.drop_last(), c)
    } else {
        s
    }
}

pub fn trim_end_matching(v: &[char], c: char) -> (r: Vec<char>)
    ensures
        r@ == trim_end_char(v@, c),
{
    let mut k: usize = v.len();
    assert(v@.take(k as int) =~= v@);
    while k > 0 && v[k - 1] == c
        invariant
            k <= v@.len(),
            trim_end_char(v@, c) == trim_end_char(v@.take(k as int), c),
        decreases k,
    {
        assert(v@.take(k as int).drop_last() =~= v@.take(k - 1));
        k -= 1;
    }
    assert(v@.take(k as int) =~= v@.subrange(0, k as int));
    slice_chars(v, 0, k)
}

/// Lexicographic order by code point, the order of `String`'s `Ord`.
pub open spec fn lex_lt(a: Seq<char>, b: Seq<char>) -> bool
    decreases a.len(),
{
    if a.len() == 0 {
        b.len() > 0
    } else if b.len() == 0 {
        false
    } else if a[0] != b[0] {
        a[0] < b[0]
    } else {
        lex_lt(a.drop_first(), b.drop_first())
    }
}

pub proof fn lemma_lex_irreflexive(a: Seq<char>)
    ensures
        !lex_lt(a, a),
    decreases a.len(),
{
    if a.len() > 0 {
        lemma_lex_irreflexive(a.drop_first());
    }
}

pub proof fn lemma_lex_total(a: Seq<char>, b: Seq<char>)
    ensures
        a == b || lex_lt(a, b) || lex_lt(b, a),
        !(lex_lt(a, b) && lex_lt(b, a)),
    decreases a.len(),
{
    if a.len() > 0 && b.len() > 0 {
        if a[0] == b[0] {
            lemma_lex_total(a.drop_first(), b.drop_first());
            if a.drop_first() == b.drop_first() {
                assert(a =~= seq![a[0]] + a.drop_first());
                assert(b =~= seq![b[0]] + b.drop_first());
            }
        } else {
        }
    } else if a.len() == 0 && b.len() == 0 {
        assert(a =~= b);
    }
}

pub proof fn lemma_lex_transitive(a: Seq<char>, b: Seq<char>, c: Seq<char>)
    requires
        lex_lt(a, b),
        lex_lt(b, c),
    ensures
        lex_lt(a, c),
    decreases a.len(),
{
    if a.len() > 0 && b.len() > 0 && c.len() > 0 {
        if a[0] == b[0] && b[0] == c[0] {
            lemma_lex_transitive(a.drop_first(), b.drop_first(), c.drop_first());
        }
    }
}

pub fn lex_less(a: &[char], b: &[char]) -> (r: bool)
    ensures
        r == lex_lt(a@, b@),
{
    let mut i: usize = 0;
    assert(a@.skip(0) =~= a@);
    assert(b@.skip(0) =~= b@);
    while i < a.len() && i < b.len() && a[i] == b[i]
        invariant
            i <= a@.len(),
            i <= b@.len(),
            lex_lt(a@, b@) == lex_lt(a@.skip(i as int), b@.skip(i as int)),
        decreases a@.len() - i,
    {
        proof {
            let sa = a@.skip(i as int);
            let sb = b@.skip(i as int);
            assert(sa.drop_first() =~= a@.skip(i + 1));
            assert(sb.drop_first() =~= b@.skip(i + 1));
        }
        i += 1;
    }
    proof {
        let sa = a@.skip(i as int);
        let sb = b@.skip(i as int);
        if i < a@.len() && i < b@.len() {
            assert(sa[0] == a@[i as int]);
            assert(sb[0] == b@[i as int]);
        }
    }
    if i == a.len() {
        i < b.len()
    } else if i == b.len() {
        false
    } else {
        a[i] < b[i]
    }
}

} // verus!

verus! {

/// Number of occurrences of `c` in `s`.
pub open spec fn count_char(s: Seq<char>, c: char) -> nat
    decreases s.len(),
{
    if s.len() == 0 {
        0
    } else {
        count_char(s.drop_last(), c) + if s.last() == c {
            1nat
        } else {
            0nat
        }
    }
}

pub fn count_occurrences(v: &[char], c: char) -> (r: usize)
    ensures
        r == count_char(v@, c),
{
    let mut n: usize = 0;
    let mut i: usize = 0;
    while i < v.len()
        invariant
            i <= v@.len(),
            n == count_char(v@.take(i as int), c),
            n <= i,
        decreases v@.len() - i,
    {
        assert(v@.take(i + 1).drop_last() =~= v@.take(i as int));
        if v[i] == c {
            n += 1;
        }
        i += 1;
    }
    assert(v@.take(v@.len() as int) =~= v@);
    n
}

/// Position of the first two-character pattern `a b` in `s`, or `s.len()`.
pub open spec fn idx_pair(s: Seq<char>, a: char, b: char) -> int
    decreases s.len(),
{
    if s.len() < 2 {
        s.len() as int
    } else if s[0] == a && s[1] == b {
        0
    } else {
        1 + idx_pair(s.drop_first(), a, b)
    }
}

pub proof fn lemma_idx_pair(s: Seq<char>, a: char, b: char)
    ensures
        0 <= idx_pair(s, a, b) <= s.len(),
        idx_pair(s, a, b) < s.len() ==> idx_pair(s, a, b) + 1 < s.len() && s[idx_pair(s, a, b)]
            == a && s[idx_pair(s, a, b) + 1] == b,
    decreases s.len(),
{
    if s.len() >= 2 && !(s[0] == a && s[1] == b) {
        lemma_idx_pair(s.drop_first(), a, b);
    }
}

pub fn find_pair(v: &[char], a: char, b: char) -> (r: usize)
    ensures
        r == idx_pair(v@, a, b),
{
    let mut i: usize = 0;
    assert(v@.skip(0) =~= v@);
    while i < v.len() && i + 1 < v.len() && !(v[i] == a && v[i + 1] == b)
        invariant
            i <= v@.len(),
            idx_pair(v@, a, b) == i + idx_pair(v@.skip(i as int), a, b),
        decreases v@.len() - i,
    {
        proof {
            let t = v@.skip(i as int);
            assert(t.drop_first() =~= v@.skip(i + 1));
            assert(t[0] == v@[i as int] && t[1] == v@[i + 1]);
        }
        i += 1;
    }
    proof {
        let t = v@.skip(i as int);
        if i + 1 < v@.len() {
            assert(t[0] == v@[i as int] && t[1] == v@[i + 1]);
        }
    }
    if i < v.len() && i + 1 < v.len() {
        i
    } else {
        v.len()
    }
}

} // verus!

verus! {

/// Pieces of `s` between `'\n'` separators (`str::split('\n')`); always at least one.
pub open spec fn split_nl(s: Seq<char>) -> Seq<Seq<char>>
    decreases s.len(),
{
    let k = idx_of(s, '\n');
    if k >= s.len() {
        seq![s]
    } else {
        proof {
            lemma_idx_of(s, '\n');
        }
        seq![s.take(k)] + split_nl(s.skip(k + 1))
    }
}

/// Drops one trailing carriage return.
pub open spec fn strip_cr(s: Seq<char>) -> Seq<char> {
    if s.len() > 0 && s.last() == '\r' {
        s.drop_last()
    } else {
        s
    }
}

/// `str::lines`: pieces ended by `\n` or `\r\n`; the final line ending is optional.
pub open spec fn text_lines(s: Seq<char>) -> Seq<Seq<char>> {
    let p = split_nl(s);
    let n = if p.last().len() == 0 {
        p.len() - 1
    } else {
        p.len() as int
    };
    Seq::new(
        n as nat,
        |i: int|
            if i < p.len() - 1 {
                strip_cr(p[i])
            } else {
                p[i]
            },
    )
}

pub proof fn lemma_split_nl_len(s: Seq<char>)
    ensures
        split_nl(s).len() >= 1,
    decreases s.len(),
{
    lemma_idx_of(s, '\n');
    let k = idx_of(s, '\n');
    if k < s.len() {
        lemma_split_nl_len(s.skip(k + 1));
    }
}

/// The pieces of `v` between line feeds (`split_nl`).
pub fn split_newlines(v: &[char]) -> (r: Vec<Vec<char>>)
    ensures
        r@.map_values(|p: Vec<char>| p@) == split_nl(v@),
{
    let mut r: Vec<Vec<char>> = Vec::new();
    let mut start: usize = 0;
    assert(v@.skip(0) =~= v@);
    loop
        invariant
            start <= v@.len(),
            split_nl(v@) == r@.map_values(|p: Vec<char>| p@) + split_nl(v@.skip(start as int)),
        decreases v@.len() - start,
    {
        let rest = slice_chars(v, start, v.len());
        assert(rest@ =~= v@.skip(start as int));
        let k = find_char(&rest, '\n');
        proof {
            lemma_idx_of(rest@, '\n');
        }
        if k >= rest.len() {
            let ghost before = r@.map_values(|p: Vec<char>| p@);
            r.push(rest);
            assert(r@.map_values(|p: Vec<char>| p@) =~= before.push(v@.skip(start as int)));
            assert(split_nl(v@.skip(start as int)) == seq![v@.skip(start as int)]);
            assert(before + seq![v@.skip(start as int)] =~= before.push(v@.skip(start as int)));
            return r;
        }
        let piece = slice_chars(&rest, 0, k);
        let ghost before = r@.map_values(|p: Vec<char>| p@);
        r.push(piece);
        proof {
            let t = v@.skip(start as int);
            assert(piece@ =~= t.take(k as int));
            assert(t.skip(k + 1) =~= v@.skip(start + k + 1));
            assert(split_nl(t) == seq![t.take(k as int)] + split_nl(t.skip(k + 1)));
            assert(r@.map_values(|p: Vec<char>| p@) =~= before.push(t.take(k as int)));
            assert(before + (seq![t.take(k as int)] + split_nl(t.skip(k + 1))) =~= before.push(
                t.take(k as int),
            ) + split_nl(t.skip(k + 1)));
        }
        start = start + k + 1;
    }
}

/// Drops one trailing carriage return.
pub fn strip_carriage_return(v: &[char]) -> (r: Vec<char>)
    ensures
        r@ == strip_cr(v@),
{
    if v.len() > 0 && v[v.len() - 1] == '\r' {
        let r = slice_chars(v, 0, v.len() - 1);
        assert(r@ =~= v@.drop_last());
        r
    } else {
        slice_chars(v, 0, v.len())
    }
}

/// `str::lines` on a character vector.
pub fn lines_of(v: &[char]) -> (r: Vec<Vec<char>>)
    ensures
        r@.map_values(|p: Vec<char>| p@) == text_lines(v@),
{
    let pieces = split_newlines(v);
    let ghost p = split_nl(v@);
    proof {
        lemma_split_nl_len(v@);
    }
    let count = pieces.len();
    let n = if pieces[count - 1].len() == 0 {
        count - 1
    } else {
        count
    };
    assert(pieces@[count - 1]@ == p.last());
    let mut r: Vec<Vec<char>> = Vec::new();
    let mut i: usize = 0;
    while i < n
        invariant
            i <= n <= count,
            count == pieces@.len(),
            count == p.len(),
            p == split_nl(v@),
            pieces@.map_values(|q: Vec<char>| q@) == p,
            n == (if p.last().len() == 0 {
                p.len() - 1
            } else {
                p.len() as int
            }),
            r@.map_values(|q: Vec<char>| q@) == text_lines(v@).take(i as int),
        decreases n - i,
    {
        let ghost before = r@.map_values(|q: Vec<char>| q@);
        assert(pieces@[i as int]@ == p[i as int]);
        let line = if i + 1 < count {
            strip_carriage_return(&pieces[i])
        } else {
            slice_chars(&pieces[i], 0, pieces[i].len())
        };
        r.push(line);
        proof {
            let tl = text_lines(v@);
            assert(tl.len() == n);
            assert(tl[i as int] == line@);
            assert(r@.map_values(|q: Vec<char>| q@) =~= before.push(line@));
            assert(tl.take(i + 1) =~= tl.take(i as int).push(tl[i as int]));
        }
        i += 1;
    }
    assert(text_lines(v@).take(n as int) =~= text_lines(v@));
    r
}

} // verus!

verus! {

/// `str::split_whitespace`: the maximal runs of non-white-space characters.
pub open spec fn words(s: Seq<char>) -> Seq<Seq<char>>
    decreases s.len(),
{
    if s.len() == 0 {
        seq![]
    } else if is_ws(s[0]) {
        words(s.drop_first())
    } else {
        let k = idx_ws(s);
        proof {
            lemma_idx_ws(s);
            lemma_idx_ws(s.drop_first());
        }
        seq![s.take(k)] + words(s.skip(k))
    }
}

/// `str::split_whitespace` on a character vector.
pub fn split_words(v: &[char]) -> (r: Vec<Vec<char>>)
    ensures
        r@.map_values(|p: Vec<char>| p@) == words(v@),
{
    let mut r: Vec<Vec<char>> = Vec::new();
    let mut i: usize = 0;
    assert(v@.skip(0) =~= v@);
    while i < v.len()
        invariant
            i <= v@.len(),
            words(v@) == r@.map_values(|p: Vec<char>| p@) + words(v@.skip(i as int)),
        decreases v@.len() - i,
    {
        let t = Ghost(v@.skip(i as int));
        if is_whitespace(v[i]) {
            assert(t@[0] == v@[i as int]);
            assert(t@.drop_first() =~= v@.skip(i + 1));
            i += 1;
        } else {
            let rest = slice_chars(v, i, v.len());
            assert(rest@ =~= t@);
            let k = find_whitespace(&rest);
            proof {
                lemma_idx_ws(t@);
                lemma_idx_ws(t@.drop_first());
                assert(t@[0] == v@[i as int]);
            }
            let word = slice_chars(&rest, 0, k);
            let ghost before = r@.map_values(|p: Vec<char>| p@);
            r.push(word);
            proof {
                assert(word@ =~= t@.take(k as int));
                assert(t@.skip(k as int) =~= v@.skip(i + k));
                assert(r@.map_values(|p: Vec<char>| p@) =~= before.push(word@));
                assert(before + (seq![word@] + words(t@.skip(k as int))) =~= before.push(word@)
                    + words(t@.skip(k as int)));
            }
            i = i + k;
        }
    }
    assert(words(v@.skip(i as int)) =~= seq![]) by {
        assert(v@.skip(i as int).len() == 0);
    }
    assert(r@.map_values(|p: Vec<char>| p@) + seq![] =~= r@.map_values(|p: Vec<char>| p@));
    r
}

} // verus!
