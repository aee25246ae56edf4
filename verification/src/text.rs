//! Character-level text helpers shared by the domain types.
use vstd::prelude::*;

verus! {

/// An uppercase ASCII letter `A`..=`Z`.
pub open spec fn is_upper(c: char) -> bool {
    65 <= (c as u32) <= 90
}

/// A lowercase ASCII letter `a`..=`z`.
pub open spec fn is_lower(c: char) -> bool {
    97 <= (c as u32) <= 122
}

/// An ASCII digit `0`..=`9`.
pub open spec fn is_digit(c: char) -> bool {
    48 <= (c as u32) <= 57
}

/// An ASCII letter or digit.
pub open spec fn is_alnum(c: char) -> bool {
    is_upper(c) || is_lower(c) || is_digit(c)
}

/// ASCII whitespace as Rust's `u8::is_ascii_whitespace` defines it:
/// space, tab, line feed, form feed and carriage return.
pub open spec fn is_ascii_space(c: char) -> bool {
    let u = c as u32;
    u == 32 || u == 9 || u == 10 || u == 12 || u == 13
}

/// Unicode `White_Space`, the set that Rust's `char::is_whitespace` and
/// `str::trim` use.
pub open spec fn is_space(c: char) -> bool {
    let u = c as u32;
    ||| 9 <= u <= 13
    ||| u == 32
    ||| u == 0x85
    ||| u == 0xA0
    ||| u == 0x1680
    ||| 0x2000 <= u <= 0x200A
    ||| u == 0x2028
    ||| u == 0x2029
    ||| u == 0x202F
    ||| u == 0x205F
    ||| u == 0x3000
}

/// Every character of `s` is whitespace (so `s` is empty once trimmed).
pub open spec fn is_blank(s: Seq<char>) -> bool {
    forall|i: int| 0 <= i < s.len() ==> is_space(#[trigger] s[i])
}

/// `s` without its leading whitespace.
pub open spec fn trim_start(s: Seq<char>) -> Seq<char>
    decreases s.len(),
{
    if s.len() > 0 && is_space(s[0]) {
        trim_start(s.drop_first())
    } else {
        s
    }
}

/// `s` without its trailing whitespace.
pub open spec fn trim_end(s: Seq<char>) -> Seq<char>
    decreases s.len(),
{
    if s.len() > 0 && is_space(s.last()) {
        trim_end(s.drop_last())
    } else {
        s
    }
}

/// `s` without leading and trailing whitespace, as `str::trim` gives it.
pub open spec fn trim(s: Seq<char>) -> Seq<char> {
    trim_end(trim_start(s))
}

/// `s` with every uppercase ASCII letter replaced by its lowercase letter.
pub open spec fn lower_char(c: char) -> char {
    if is_upper(c) {
        ((c as u32) + 32) as char
    } else {
        c
    }
}

pub open spec fn to_lower(s: Seq<char>) -> Seq<char> {
    s.map_values(|c: char| lower_char(c))
}

/// Index of the first occurrence of `c` in `s`, or `s.len()` when `c`
/// does not occur.
pub open spec fn first_index(s: Seq<char>, c: char) -> int
    decreases s.len(),
{
    if s.len() == 0 {
        0
    } else if s[0] == c {
        0
    } else {
        1 + first_index(s.drop_first(), c)
    }
}

pub proof fn lemma_first_index(s: Seq<char>, c: char)
    ensures
        0 <= first_index(s, c) <= s.len(),
        first_index(s, c) < s.len() ==> s[first_index(s, c)] == c,
        forall|i: int| 0 <= i < first_index(s, c) ==> s[i] != c,
        first_index(s, c) == s.len() <==> !s.contains(c),
    decreases s.len(),
{
    if s.len() > 0 && s[0] != c {
        lemma_first_index(s.drop_first(), c);
        assert forall|i: int| 0 <= i < first_index(s, c) implies s[i] != c by {
            if i > 0 {
                assert(s[i] == s.drop_first()[i - 1]);
            }
        }
        if s.contains(c) {
            let k = choose|k: int| 0 <= k < s.len() && s[k] == c;
            assert(s.drop_first()[k - 1] == c);
        }
    }
}

pub proof fn lemma_trim_start_is_suffix(s: Seq<char>)
    ensures
        exists|k: int| 0 <= k <= s.len() && trim_start(s) == s.subrange(k, s.len() as int)
            && (forall|i: int| 0 <= i < k ==> is_space(s[i]))
            && (k < s.len() ==> !is_space(s[k])),
    decreases s.len(),
{
    if s.len() > 0 && is_space(s[0]) {
        lemma_trim_start_is_suffix(s.drop_first());
        let k = choose|k: int| 0 <= k <= s.drop_first().len()
            && trim_start(s.drop_first()) == s.drop_first().subrange(k, s.drop_first().len() as int)
            && (forall|i: int| 0 <= i < k ==> is_space(s.drop_first()[i]))
            && (k < s.drop_first().len() ==> !is_space(s.drop_first()[k]));
        assert(s.drop_first().subrange(k, s.drop_first().len() as int) == s.subrange(k + 1, s.len() as int));
        assert forall|i: int| 0 <= i < k + 1 implies is_space(s[i]) by {
            if i > 0 {
                assert(s[i] == s.drop_first()[i - 1]);
            }
        }
        if k + 1 < s.len() {
            assert(s[k + 1] == s.drop_first()[k]);
        }
    } else {
        assert(s.subrange(0, s.len() as int) == s);
    }
}

pub proof fn lemma_trim_end_is_prefix(s: Seq<char>)
    ensures
        exists|k: int| 0 <= k <= s.len() && trim_end(s) == s.subrange(0, k)
            && (forall|i: int| k <= i < s.len() ==> is_space(s[i]))
            && (k > 0 ==> !is_space(s[k - 1])),
    decreases s.len(),
{
    if s.len() > 0 && is_space(s.last()) {
        lemma_trim_end_is_prefix(s.drop_last());
        let k = choose|k: int| 0 <= k <= s.drop_last().len()
            && trim_end(s.drop_last()) == s.drop_last().subrange(0, k)
            && (forall|i: int| k <= i < s.drop_last().len() ==> is_space(s.drop_last()[i]))
            && (k > 0 ==> !is_space(s.drop_last()[k - 1]));
        assert(s.drop_last().subrange(0, k) == s.subrange(0, k));
        assert forall|i: int| k <= i < s.len() implies is_space(s[i]) by {
            if i < s.len() - 1 {
                assert(s[i] == s.drop_last()[i]);
            }
        }
        if k > 0 {
            assert(s[k - 1] == s.drop_last()[k - 1]);
        }
    } else {
        assert(s.subrange(0, s.len() as int) == s);
    }
}

/// A string is blank exactly when trimming leaves nothing.
pub proof fn lemma_blank_iff_trim_empty(s: Seq<char>)
    ensures
        is_blank(s) <==> trim(s).len() == 0,
{
    lemma_trim_start_is_suffix(s);
    let k = choose|k: int| 0 <= k <= s.len() && trim_start(s) == s.subrange(k, s.len() as int)
        && (forall|i: int| 0 <= i < k ==> is_space(s[i]))
        && (k < s.len() ==> !is_space(s[k]));
    let t = trim_start(s);
    lemma_trim_end_is_prefix(t);
    let j = choose|j: int| 0 <= j <= t.len() && trim_end(t) == t.subrange(0, j)
        && (forall|i: int| j <= i < t.len() ==> is_space(t[i]))
        && (j > 0 ==> !is_space(t[j - 1]));
    if trim(s).len() == 0 {
        assert(j == 0);
        assert forall|i: int| 0 <= i < s.len() implies is_space(s[i]) by {
            if i >= k {
                assert(s[i] == t[i - k]);
            }
        }
    }
    if is_blank(s) {
        if k < s.len() {
            assert(is_space(s[k]));
        }
        assert(t.len() == 0);
    }
}

/// Appends one character; the standard library documents `String::push`
/// as appending the given `char` to the end of the string.
#[verifier::external_body]
pub(crate) fn push_char(s: &mut String, c: char)
    ensures
        final(s)@ == old(s)@.push(c),
{
    s.push(c);
}

/// What `<str as Debug>::fmt` writes for a string: the string in double
/// quotes with its characters escaped; a function of the string alone.
pub uninterp spec fn str_debug_of(s: Seq<char>) -> Seq<char>;

/// `format!("{:?}", t)`: the string's `Debug` text.
#[verifier::external_body]
pub(crate) fn debug_text(t: &str) -> (r: String)
    ensures
        r@ == str_debug_of(t@),
{
    format!("{:?}", t)
}

/// The characters of `s`, in order.
pub(crate) fn chars_of(s: &str) -> (v: Vec<char>)
    ensures
        v@ == s@,
{
    let mut v: Vec<char> = Vec::new();
    for c in it: s.chars()
        invariant
            v@ == it.seq().take(it.index() as int),
            it.seq() == s@,
    {
        v.push(c);
    }
    v
}

/// A string holding exactly the characters of `v[from..to]`.
pub(crate) fn string_of_range(v: &Vec<char>, from: usize, to: usize) -> (s: String)
    requires
        from <= to <= v.len(),
    ensures
        s@ == v@.subrange(from as int, to as int),
{
    let mut s = String::new();
    let mut i: usize = from;
    while i < to
        invariant
            from <= i <= to <= v.len(),
            s@ == v@.subrange(from as int, i as int),
        decreases to - i,
    {
        push_char(&mut s, v[i]);
        assert(v@.subrange(from as int, i as int).push(v@[i as int]) == v@.subrange(
            from as int,
            i + 1,
        ));
        i += 1;
    }
    s
}

/// A string holding exactly the characters of `v`.
pub(crate) fn string_of(v: &Vec<char>) -> (s: String)
    ensures
        s@ == v@,
{
    let s = string_of_range(v, 0, v.len());
    assert(v@.subrange(0, v@.len() as int) == v@);
    s
}

/// An owned copy of `s`.
pub(crate) fn owned(s: &str) -> (r: String)
    ensures
        r@ == s@,
{
    s.to_owned()
}

pub(crate) fn char_is_space(c: char) -> (b: bool)
    ensures
        b == is_space(c),
{
    let u = c as u32;
    (9 <= u && u <= 13) || u == 32 || u == 0x85 || u == 0xA0 || u == 0x1680 || (0x2000 <= u && u
        <= 0x200A) || u == 0x2028 || u == 0x2029 || u == 0x202F || u == 0x205F || u == 0x3000
}

pub(crate) fn char_is_upper(c: char) -> (b: bool)
    ensures
        b == is_upper(c),
{
    let u = c as u32;
    65 <= u && u <= 90
}

pub(crate) fn char_is_alnum(c: char) -> (b: bool)
    ensures
        b == is_alnum(c),
{
    let u = c as u32;
    (65 <= u && u <= 90) || (97 <= u && u <= 122) || (48 <= u && u <= 57)
}

/// Whether every character of `s` is whitespace.
pub(crate) fn str_is_blank(s: &str) -> (b: bool)
    ensures
        b == is_blank(s@),
{
    let v = chars_of(s);
    let mut i: usize = 0;
    while i < v.len()
        invariant
            v@ == s@,
            i <= v.len(),
            forall|j: int| 0 <= j < i ==> is_space(#[trigger] s@[j]),
        decreases v.len() - i,
    {
        if !char_is_space(v[i]) {
            return false;
        }
        i += 1;
    }
    true
}

/// `s` with leading and trailing whitespace removed, as `str::trim` does.
pub(crate) fn trimmed(s: &str) -> (r: String)
    ensures
        r@ == trim(s@),
{
    let v = chars_of(s);
    proof {
        lemma_trim_start_is_suffix(s@);
    }
    let ghost k = choose|k: int| 0 <= k <= s@.len() && trim_start(s@) == s@.subrange(k, s@.len() as int)
        && (forall|i: int| 0 <= i < k ==> is_space(s@[i]))
        && (k < s@.len() ==> !is_space(s@[k]));
    let mut start: usize = 0;
    while start < v.len() && char_is_space(v[start])
        invariant
            v@ == s@,
            start <= k,
            0 <= k <= s@.len(),
            forall|i: int| 0 <= i < k ==> is_space(s@[i]),
            k < s@.len() ==> !is_space(s@[k]),
        decreases v.len() - start,
    {
        start += 1;
    }
    assert(start == k);
    let ghost t = trim_start(s@);
    proof {
        lemma_trim_end_is_prefix(t);
    }
    let ghost j = choose|j: int| 0 <= j <= t.len() && trim_end(t) == t.subrange(0, j)
        && (forall|i: int| j <= i < t.len() ==> is_space(t[i]))
        && (j > 0 ==> !is_space(t[j - 1]));
    let mut end: usize = v.len();
    while end > start && char_is_space(v[end - 1])
        invariant
            v@ == s@,
            start == k,
            t == s@.subrange(k, s@.len() as int),
            start <= end <= v.len(),
            end >= start + j,
            forall|i: int| j <= i < t.len() ==> is_space(t[i]),
            j > 0 ==> !is_space(t[j - 1]),
        decreases end,
    {
        proof {
            if end - 1 - start < j {
                assert(v@[end - 1] == t[j - 1]);
            }
        }
        end -= 1;
    }
    proof {
        if end > start + j {
            assert(v@[end - 1] == t[end - 1 - start]);
        }
    }
    assert(end == start + j);
    assert(t.subrange(0, j) == s@.subrange(k, k + j));
    string_of_range(&v, start, end)
}

/// `s` with ASCII uppercase letters lowered, as `str::to_ascii_lowercase` does.
pub(crate) fn lowered(s: &Vec<char>) -> (r: Vec<char>)
    ensures
        r@ == to_lower(s@),
{
    let mut r: Vec<char> = Vec::new();
    let mut i: usize = 0;
    while i < s.len()
        invariant
            i <= s.len(),
            r@ == to_lower(s@.take(i as int)),
        decreases s.len() - i,
    {
        let c = s[i];
        let u = c as u32;
        let l = if 65 <= u && u <= 90 {
            ((u + 32) as u8) as char
        } else {
            c
        };
        assert(to_lower(s@.take(i as int)).push(lower_char(c)) == to_lower(s@.take(i + 1)));
        r.push(l);
        i += 1;
    }
    assert(s@.take(s.len() as int) == s@);
    r
}

/// Whether two strings hold the same characters.
pub(crate) fn same_text(a: &str, b: &str) -> (r: bool)
    ensures
        r == (a@ == b@),
{
    let x = chars_of(a);
    let y = chars_of(b);
    if x.len() != y.len() {
        return false;
    }
    let mut i: usize = 0;
    while i < x.len()
        invariant
            x@ == a@,
            y@ == b@,
            x.len() == y.len(),
            i <= x.len(),
            forall|j: int| 0 <= j < i ==> a@[j] == b@[j],
        decreases x.len() - i,
    {
        if x[i] != y[i] {
            return false;
        }
        i += 1;
    }
    assert(a@ =~= b@);
    true
}

/// Lexicographic order on texts, character by character by code point; a
/// proper prefix comes first.
pub open spec fn text_less(a: Seq<char>, b: Seq<char>) -> bool
    decreases a.len(),
{
    if b.len() == 0 {
        false
    } else if a.len() == 0 {
        true
    } else if a[0] != b[0] {
        (a[0] as u32) < (b[0] as u32)
    } else {
        text_less(a.drop_first(), b.drop_first())
    }
}

/// `text_less` is a strict total order: irreflexive, transitive and total.
pub proof fn lemma_text_less_order(a: Seq<char>, b: Seq<char>, c: Seq<char>)
    ensures
        !text_less(a, a),
        text_less(a, b) ==> !text_less(b, a),
        text_less(a, b) && text_less(b, c) ==> text_less(a, c),
        a != b ==> text_less(a, b) || text_less(b, a),
    decreases a.len(),
{
    if a.len() > 0 {
        lemma_text_less_order(a.drop_first(), b.drop_first(), c.drop_first());
        if b.len() > 0 {
            vstd::utf8::char_u32_cast(a[0], a[0] as u32);
            vstd::utf8::char_u32_cast(b[0], b[0] as u32);
        }
        if b.len() > 0 && a[0] == b[0] && a.drop_first() == b.drop_first() {
            assert(a =~= seq![a[0]] + a.drop_first());
            assert(b =~= seq![b[0]] + b.drop_first());
        }
        if a.len() > 0 && b.len() > 0 && c.len() > 0 && (a[0] as u32) < (b[0] as u32) && (b[0] as u32) < (c[0] as u32) {
            assert(a[0] != c[0]);
        }
    } else if b.len() == 0 {
        assert(a =~= b);
    }
}

/// Whether `a` comes strictly before `b` in `text_less` order.
pub(crate) fn text_lt(a: &str, b: &str) -> (r: bool)
    ensures
        r == text_less(a@, b@),
{
    let x = chars_of(a);
    let y = chars_of(b);
    let mut i: usize = 0;
    assert(a@.skip(0) =~= a@);
    assert(b@.skip(0) =~= b@);
    while i < x.len() && i < y.len()
        invariant
            x@ == a@,
            y@ == b@,
            i <= x.len(),
            i <= y.len(),
            text_less(a@, b@) == text_less(a@.skip(i as int), b@.skip(i as int)),
        decreases x.len() - i,
    {
        assert(a@.skip(i as int)[0] == x@[i as int]);
        assert(b@.skip(i as int)[0] == y@[i as int]);
        let c = x[i];
        let d = y[i];
        if c != d {
            return (c as u32) < (d as u32);
        }
        assert(a@.skip(i as int).drop_first() =~= a@.skip(i + 1));
        assert(b@.skip(i as int).drop_first() =~= b@.skip(i + 1));
        i += 1;
    }
    i == x.len() && i < y.len()
}

/// The ASCII digit for `d` in `0..10`.
pub open spec fn digit_char(d: int) -> char {
    ((48 + d) as u8) as char
}

/// The decimal digits of `n`, most significant first, without leading zeros.
pub open spec fn decimal(n: nat) -> Seq<char>
    decreases n,
{
    if n < 10 {
        seq![digit_char(n as int)]
    } else {
        decimal(n / 10).push(digit_char((n % 10) as int))
    }
}

/// The decimal text of `x`, with a leading `-` when it is negative.
pub open spec fn signed_decimal(x: int) -> Seq<char> {
    if x < 0 {
        seq!['-'] + decimal((-x) as nat)
    } else {
        decimal(x as nat)
    }
}

/// Appends the decimal digits of `n`.
pub(crate) fn push_decimal(s: &mut String, n: u64)
    ensures
        final(s)@ == old(s)@ + decimal(n as nat),
    decreases n,
{
    if n >= 10 {
        push_decimal(s, n / 10);
    }
    let d: u8 = (n % 10) as u8;
    push_char(s, (48u8 + d) as char);
    assert(old(s)@ + decimal(n as nat) =~= s@);
}

/// Appends the decimal text of `x`, with a leading `-` when it is negative.
pub(crate) fn push_signed_decimal(s: &mut String, x: i64)
    ensures
        final(s)@ == old(s)@ + signed_decimal(x as int),
{
    if x < 0 {
        push_char(s, '-');
        let magnitude: u64 = (0i128 - (x as i128)) as u64;
        push_decimal(s, magnitude);
        assert(s@ =~= old(s)@ + signed_decimal(x as int));
    } else {
        push_decimal(s, x as u64);
    }
}

/// `x` in decimal, zero-padded after its sign to at least `width` characters,
/// as the `{:0width}` format writes it.
pub open spec fn zero_padded(x: int, width: nat) -> Seq<char> {
    let digits = if x < 0 { decimal((-x) as nat) } else { decimal(x as nat) };
    let sign: Seq<char> = if x < 0 { seq!['-'] } else { Seq::empty() };
    let used = sign.len() + digits.len();
    let pad: nat = if used < width { (width - used) as nat } else { 0 };
    sign + Seq::new(pad, |i: int| '0') + digits
}

/// Appends `x` zero-padded to at least `width` characters.
pub(crate) fn push_zero_padded(s: &mut String, x: i64, width: u64)
    ensures
        final(s)@ == old(s)@ + zero_padded(x as int, width as nat),
{
    let mut digits = String::new();
    let magnitude: u64 = if x < 0 { (0i128 - (x as i128)) as u64 } else { x as u64 };
    push_decimal(&mut digits, magnitude);
    assert(digits@ =~= (if x < 0 { decimal((-x) as nat) } else { decimal(x as nat) }));
    let used: u128 = chars_of(digits.as_str()).len() as u128 + if x < 0 { 1u128 } else { 0u128 };
    if x < 0 {
        push_char(s, '-');
    }
    let ghost sign: Seq<char> = if x < 0 { seq!['-'] } else { Seq::empty() };
    let ghost start = s@;
    assert(start =~= old(s)@ + sign);
    let mut k: u128 = used;
    while k < width as u128
        invariant
            used <= k,
            k <= width || k == used,
            s@ == start + Seq::new((k - used) as nat, |i: int| '0'),
        decreases width - k,
    {
        push_char(s, '0');
        assert(Seq::new((k - used) as nat, |i: int| '0').push('0') =~= Seq::new((k + 1 - used) as nat, |i: int| '0'));
        k += 1;
    }
    push_text(s, digits.as_str());
    assert(s@ =~= old(s)@ + zero_padded(x as int, width as nat));
}

/// Appends the characters of `t` to `s`.
pub(crate) fn push_text(s: &mut String, t: &str)
    ensures
        final(s)@ == old(s)@ + t@,
{
    let v = chars_of(t);
    let mut i: usize = 0;
    while i < v.len()
        invariant
            i <= v.len(),
            v@ == t@,
            s@ == old(s)@ + t@.take(i as int),
        decreases v.len() - i,
    {
        push_char(s, v[i]);
        assert(t@.take(i + 1) =~= t@.take(i as int).push(t@[i as int]));
        assert(s@ =~= old(s)@ + t@.take(i + 1));
        i += 1;
    }
    assert(t@.take(v.len() as int) =~= t@);
}

/// The concatenation of two texts.
pub(crate) fn concat(a: &str, b: &str) -> (r: String)
    ensures
        r@ == a@ + b@,
{
    let mut s = owned(a);
    push_text(&mut s, b);
    s
}

} // verus!
