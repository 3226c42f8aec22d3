//! Small verified string routines: decimal rendering, comparison, search.
use vstd::prelude::*;

verus! {

/// The character of a decimal digit.
pub open spec fn digit_char(d: nat) -> char {
    if d == 0 { '0' }
    else if d == 1 { '1' }
    else if d == 2 { '2' }
    else if d == 3 { '3' }
    else if d == 4 { '4' }
    else if d == 5 { '5' }
    else if d == 6 { '6' }
    else if d == 7 { '7' }
    else if d == 8 { '8' }
    else { '9' }
}

/// The shortest decimal rendering of `n`, most significant digit first.
pub open spec fn decimal(n: nat) -> Seq<char>
    decreases n,
{
    if n < 10 {
        seq![digit_char(n)]
    } else {
        decimal(n / 10).push(digit_char(n % 10))
    }
}

/// Whether `c` is one of the digits `0`..`9`.
pub open spec fn is_digit(c: char) -> bool {
    0x30 <= c as u32 <= 0x39
}

/// The number that a string of decimal digits denotes, most significant digit first.
pub open spec fn digits_value(s: Seq<char>) -> int
    decreases s.len(),
{
    if s.len() == 0 {
        0
    } else {
        digits_value(s.drop_last()) * 10 + (s.last() as u32 - 0x30)
    }
}

/// Whether `s` is a decimal numeral without superfluous leading zeros.
pub open spec fn is_numeral(s: Seq<char>) -> bool {
    &&& s.len() > 0
    &&& forall|i: int| 0 <= i < s.len() ==> is_digit(#[trigger] s[i])
    &&& (s.len() > 1 ==> s[0] as u32 != 0x30)
}

proof fn lemma_digit_char(d: nat)
    requires
        d < 10,
    ensures
        digit_char(d) as u32 == 0x30 + d,
{
}

proof fn lemma_single_digit_value(s: Seq<char>)
    requires
        s.len() == 1,
    ensures
        digits_value(s) == s[0] as u32 - 0x30,
{
    assert(s.drop_last().len() == 0);
    assert(digits_value(s.drop_last()) == 0);
}

/// The decimal rendering of `n` is a numeral that reads back as `n`; so two different numbers
/// never render alike.
pub proof fn law_decimal_reads_back(n: nat)
    ensures
        is_numeral(decimal(n)),
        digits_value(decimal(n)) == n,
    decreases n,
{
    let e = decimal(n);
    if n >= 10 {
        law_decimal_reads_back(n / 10);
        let d = decimal(n / 10);
        assert(e.drop_last() =~= d);
        assert(e[0] == d[0]);
        assert(e.last() == digit_char((n % 10) as nat));
        lemma_digit_char((n % 10) as nat);
        if d.len() == 1 {
            assert(n / 10 < 10) by {
                lemma_single_digit_value(d);
            }
            lemma_digit_char((n / 10) as nat);
            assert(d[0] == digit_char((n / 10) as nat));
        }
        assert forall|i: int| 0 <= i < e.len() implies is_digit(#[trigger] e[i]) by {
            if i < d.len() {
                assert(e[i] == d[i]);
            }
        }
        assert(digits_value(e) == digits_value(d) * 10 + (e.last() as u32 - 0x30));
        assert(n == (n / 10) * 10 + n % 10);
    } else {
        lemma_digit_char(n);
        lemma_single_digit_value(e);
    }
}

/// Numerals that read back alike are alike.
pub proof fn law_numeral_unique(a: Seq<char>, b: Seq<char>)
    requires
        is_numeral(a),
        is_numeral(b),
        digits_value(a) == digits_value(b),
    ensures
        a == b,
    decreases a.len() + b.len(),
{
    lemma_numeral_size(a);
    lemma_numeral_size(b);
    if a.len() == 1 && b.len() == 1 {
        lemma_single_digit_value(a);
        lemma_single_digit_value(b);
        assert(a[0] as u32 == b[0] as u32);
        vstd::utf8::char_u32_cast(a[0], a[0] as u32);
        vstd::utf8::char_u32_cast(b[0], b[0] as u32);
        assert(a =~= b);
    } else if a.len() > 1 && b.len() > 1 {
        let a2 = a.drop_last();
        let b2 = b.drop_last();
        assert(a2[0] == a[0]);
        assert(b2[0] == b[0]);
        assert forall|i: int| 0 <= i < a2.len() implies is_digit(#[trigger] a2[i]) by { assert(a2[i] == a[i]); }
        assert forall|i: int| 0 <= i < b2.len() implies is_digit(#[trigger] b2[i]) by { assert(b2[i] == b[i]); }
        assert(is_digit(a.last()) && is_digit(b.last()));
        let x = digits_value(a2);
        let y = digits_value(b2);
        let p: int = a.last() as u32 - 0x30;
        let q: int = b.last() as u32 - 0x30;
        assert(x * 10 + p == y * 10 + q);
        assert(x == y && p == q) by (nonlinear_arith)
            requires
                x * 10 + p == y * 10 + q,
                0 <= p < 10,
                0 <= q < 10,
        ;
        assert(a.last() as u32 == b.last() as u32);
        vstd::utf8::char_u32_cast(a.last(), a.last() as u32);
        vstd::utf8::char_u32_cast(b.last(), b.last() as u32);
        law_numeral_unique(a2, b2);
        assert(a =~= a2.push(a.last()));
        assert(b =~= b2.push(b.last()));
    }
}

/// A numeral of one digit is below 10; a longer one is at least 10.
proof fn lemma_numeral_size(s: Seq<char>)
    requires
        is_numeral(s),
    ensures
        s.len() == 1 ==> 0 <= digits_value(s) < 10,
        s.len() > 1 ==> digits_value(s) >= 10,
        digits_value(s) >= 0,
    decreases s.len(),
{
    let d = s.drop_last();
    assert(is_digit(s.last()));
    if s.len() == 1 {
        lemma_single_digit_value(s);
    } else {
        assert forall|i: int| 0 <= i < d.len() implies is_digit(#[trigger] d[i]) by { assert(d[i] == s[i]); }
        assert(d[0] == s[0]);
        lemma_numeral_size(d);
        if d.len() == 1 {
            lemma_single_digit_value(d);
            assert(digits_value(d) >= 1);
        }
        assert(digits_value(s) == digits_value(d) * 10 + (s.last() as u32 - 0x30));
    }
}

fn digit_text(d: u64) -> (r: &'static str)
    requires
        d < 10,
    ensures
        r@ == seq![digit_char(d as nat)],
{
    proof {
        reveal_strlit("0");
        reveal_strlit("1");
        reveal_strlit("2");
        reveal_strlit("3");
        reveal_strlit("4");
        reveal_strlit("5");
        reveal_strlit("6");
        reveal_strlit("7");
        reveal_strlit("8");
        reveal_strlit("9");
    }
    if d == 0 { "0" }
    else if d == 1 { "1" }
    else if d == 2 { "2" }
    else if d == 3 { "3" }
    else if d == 4 { "4" }
    else if d == 5 { "5" }
    else if d == 6 { "6" }
    else if d == 7 { "7" }
    else if d == 8 { "8" }
    else { "9" }
}

/// Renders `n` in decimal, as `n.to_string()` does.
pub fn u64_to_decimal(n: u64) -> (r: String)
    ensures
        r@ == decimal(n as nat),
    decreases n,
{
    if n < 10 {
        let mut s = String::new();
        s.append(digit_text(n));
        s
    } else {
        let mut s = u64_to_decimal(n / 10);
        s.append(digit_text(n % 10));
        s
    }
}


/// Whether `c` has the Unicode `White_Space` property, which is what
/// `char::is_whitespace` and `str::trim` go by.
pub open spec fn is_white_space(c: char) -> bool {
    let v = c as u32;
    ||| 0x09 <= v <= 0x0D
    ||| v == 0x20
    ||| v == 0x85
    ||| v == 0xA0
    ||| v == 0x1680
    ||| 0x2000 <= v <= 0x200A
    ||| v == 0x2028
    ||| v == 0x2029
    ||| v == 0x202F
    ||| v == 0x205F
    ||| v == 0x3000
}

/// `s` without its leading white space.
pub open spec fn trim_start(s: Seq<char>) -> Seq<char>
    decreases s.len(),
{
    if s.len() > 0 && is_white_space(s[0]) {
        trim_start(s.drop_first())
    } else {
        s
    }
}

/// `s` without its trailing white space.
pub open spec fn trim_end(s: Seq<char>) -> Seq<char>
    decreases s.len(),
{
    if s.len() > 0 && is_white_space(s.last()) {
        trim_end(s.drop_last())
    } else {
        s
    }
}

/// `s` without leading and trailing white space.
pub open spec fn trimmed(s: Seq<char>) -> Seq<char> {
    trim_end(trim_start(s))
}

proof fn lemma_trim_start_front(s: Seq<char>)
    ensures
        trim_start(s).len() == 0 || !is_white_space(trim_start(s)[0]),
    decreases s.len(),
{
    if s.len() > 0 && is_white_space(s[0]) {
        lemma_trim_start_front(s.drop_first());
    }
}

proof fn lemma_trim_end_back(s: Seq<char>)
    ensures
        trim_end(s).len() == 0 || !is_white_space(trim_end(s).last()),
    decreases s.len(),
{
    if s.len() > 0 && is_white_space(s.last()) {
        lemma_trim_end_back(s.drop_last());
    }
}

proof fn lemma_trim_end_keeps_front(s: Seq<char>)
    requires
        s.len() == 0 || !is_white_space(s[0]),
    ensures
        trim_end(s).len() == 0 || trim_end(s)[0] == s[0],
    decreases s.len(),
{
    if s.len() > 0 && is_white_space(s.last()) {
        assert(s.len() > 1);
        assert(s.drop_last()[0] == s[0]);
        lemma_trim_end_keeps_front(s.drop_last());
    }
}

/// Trimming twice is trimming once: what `trim` leaves has no white space at either end.
pub proof fn law_trim_idempotent(s: Seq<char>)
    ensures
        trimmed(trimmed(s)) == trimmed(s),
        trimmed(s).len() == 0 || (!is_white_space(trimmed(s)[0]) && !is_white_space(trimmed(s).last())),
{
    let a = trim_start(s);
    lemma_trim_start_front(s);
    lemma_trim_end_keeps_front(a);
    let x = trim_end(a);
    lemma_trim_end_back(a);
    assert(trim_start(x) == x);
    assert(trim_end(x) == x);
}

/// Whether `c` is white space, as `char::is_whitespace` decides.
pub fn is_white_space_char(c: char) -> (r: bool)
    ensures
        r == is_white_space(c),
{
    let v = c as u32;
    (0x09 <= v && v <= 0x0D) || v == 0x20 || v == 0x85 || v == 0xA0 || v == 0x1680 || (0x2000
        <= v && v <= 0x200A) || v == 0x2028 || v == 0x2029 || v == 0x202F || v == 0x205F || v
        == 0x3000
}

/// `s` with leading and trailing white space removed, as `str::trim` gives it.
pub fn trim(s: &str) -> (r: &str)
    ensures
        r@ == trimmed(s@),
{
    let len = s.unicode_len();
    let mut i: usize = 0;
    assert(s@.subrange(0, len as int) =~= s@);
    while i < len && is_white_space_char(s.get_char(i))
        invariant
            len == s@.len(),
            i <= len,
            trim_start(s@.subrange(i as int, len as int)) == trim_start(s@),
        decreases len - i,
    {
        assert(s@.subrange(i as int, len as int).drop_first() =~= s@.subrange(
            i + 1,
            len as int,
        ));
        i = i + 1;
    }
    assert(s@.subrange(0, len as int) =~= s@);
    let mut j: usize = len;
    while j > i && is_white_space_char(s.get_char(j - 1))
        invariant
            len == s@.len(),
            i <= j <= len,
            trim_end(s@.subrange(i as int, j as int)) == trim_end(s@.subrange(i as int, len as int)),
        decreases j,
    {
        assert(s@.subrange(i as int, j as int).drop_last() =~= s@.subrange(i as int, j - 1));
        j = j - 1;
    }
    s.substring_char(i, j)
}

/// Whether `needle` occurs in `hay` at position `i`.
pub open spec fn occurs_at(hay: Seq<char>, needle: Seq<char>, i: int) -> bool {
    0 <= i && i + needle.len() <= hay.len() && hay.subrange(i, i + needle.len()) == needle
}

/// Whether `needle` occurs anywhere in `hay`.
pub open spec fn occurs_in(hay: Seq<char>, needle: Seq<char>) -> bool {
    exists|i: int| occurs_at(hay, needle, i)
}

/// Whether the characters of `a` and `b` agree.
pub fn text_eq(a: &str, b: &str) -> (r: bool)
    ensures
        r == (a@ == b@),
{
    let n = a.unicode_len();
    if n != b.unicode_len() {
        return false;
    }
    let mut i: usize = 0;
    while i < n
        invariant
            n == a@.len(),
            n == b@.len(),
            i <= n,
            forall|k: int| 0 <= k < i ==> a@[k] == b@[k],
        decreases n - i,
    {
        if a.get_char(i) != b.get_char(i) {
            return false;
        }
        i = i + 1;
    }
    assert(a@ =~= b@);
    true
}

fn occurs_at_exec(hay: &str, needle: &str, i: usize, hay_len: usize, needle_len: usize) -> (r: bool)
    requires
        hay_len == hay@.len(),
        needle_len == needle@.len(),
        i + needle_len <= hay_len,
    ensures
        r == occurs_at(hay@, needle@, i as int),
{
    let mut k: usize = 0;
    while k < needle_len
        invariant
            hay_len == hay@.len(),
            needle_len == needle@.len(),
            i + needle_len <= hay_len,
            k <= needle_len,
            forall|m: int| 0 <= m < k ==> hay@[i + m] == needle@[m],
        decreases needle_len - k,
    {
        if hay.get_char(i + k) != needle.get_char(k) {
            assert(hay@.subrange(i as int, i + needle_len)[k as int] != needle@[k as int]);
            return false;
        }
        k = k + 1;
    }
    assert(hay@.subrange(i as int, i + needle_len) =~= needle@);
    true
}

/// Whether `needle` occurs in `hay`, as `str::contains` decides for a string pattern.
pub fn contains_text(hay: &str, needle: &str) -> (r: bool)
    ensures
        r == occurs_in(hay@, needle@),
{
    let hay_len = hay.unicode_len();
    let needle_len = needle.unicode_len();
    if needle_len > hay_len {
        assert forall|i: int| !occurs_at(hay@, needle@, i) by {}
        return false;
    }
    let limit = hay_len - needle_len;
    let mut i: usize = 0;
    loop
        invariant
            hay_len == hay@.len(),
            needle_len == needle@.len(),
            limit == hay_len - needle_len,
            i <= limit,
            forall|m: int| 0 <= m < i ==> !occurs_at(hay@, needle@, m),
        ensures
            i == limit,
            forall|m: int| 0 <= m <= i ==> !occurs_at(hay@, needle@, m),
        decreases limit - i,
    {
        if occurs_at_exec(hay, needle, i, hay_len, needle_len) {
            return true;
        }
        if i == limit {
            break;
        }
        i = i + 1;
    }
    assert forall|m: int| !occurs_at(hay@, needle@, m) by {
        if 0 <= m && m + needle_len <= hay_len {
            assert(m <= i);
        }
    }
    false
}

/// An owned copy of `s`.
pub fn owned(s: &str) -> (r: String)
    ensures
        r@ == s@,
{
    let mut r = String::new();
    r.append(s);
    r
}

/// Whether `s` begins with the character `c`.
pub fn starts_with_char(s: &str, c: char) -> (r: bool)
    ensures
        r == (s@.len() > 0 && s@[0] == c),
{
    s.unicode_len() > 0 && s.get_char(0) == c
}

/// The parts of `list` joined with `sep` between each two of them.
pub open spec fn joined(list: Seq<Seq<char>>, sep: Seq<char>) -> Seq<char>
    decreases list.len(),
{
    if list.len() == 0 {
        Seq::empty()
    } else if list.len() == 1 {
        list[0]
    } else {
        joined(list.drop_last(), sep) + sep + list.last()
    }
}

/// The views of the strings in `v`.
pub open spec fn views(v: Seq<String>) -> Seq<Seq<char>> {
    v.map_values(|s: String| s@)
}

/// Joins the strings of `list` with `sep`, as `[..].join(sep)` does.
pub fn join(list: &Vec<String>, sep: &str) -> (r: String)
    ensures
        r@ == joined(views(list@), sep@),
{
    let mut r = String::new();
    let n = list.len();
    let ghost parts = views(list@);
    let mut i: usize = 0;
    while i < n
        invariant
            n == list@.len(),
            parts == views(list@),
            i <= n,
            r@ == joined(parts.take(i as int), sep@),
        decreases n - i,
    {
        assert(parts.take(i + 1).drop_last() =~= parts.take(i as int));
        if i > 0 {
            r.append(sep);
        } else {
            assert(r@ =~= Seq::<char>::empty());
        }
        r.append(list[i].as_str());
        assert(parts.take(i + 1).last() == list@[i as int]@);
        if i == 0 {
            assert(r@ =~= parts.take(1)[0]);
        }
        i = i + 1;
    }
    assert(parts.take(n as int) =~= parts);
    r
}

/// The lowercase form of `s` under Unicode case mapping, as `str::to_lowercase` computes it.
pub uninterp spec fn lowercased(s: Seq<char>) -> Seq<char>;

/// Whether every character of `s` is ASCII.
pub open spec fn is_ascii_text(s: Seq<char>) -> bool {
    forall|i: int| 0 <= i < s.len() ==> (#[trigger] s[i]) as u32 <= 0x7F
}

/// The ASCII lowercase of a character: `A`..`Z` become `a`..`z`, every other character stays.
pub open spec fn ascii_lower_char(c: char) -> char {
    if 0x41 <= c as u32 <= 0x5A {
        ((c as u32) + 0x20) as char
    } else {
        c
    }
}

/// `s` with each character replaced by its ASCII lowercase.
pub open spec fn ascii_lowered(s: Seq<char>) -> Seq<char> {
    s.map_values(|c: char| ascii_lower_char(c))
}

/// Calls `str::to_lowercase`. Its result is named `lowercased` of the argument's characters.
/// Of ASCII text it is also claimed that the result is the ASCII lowercase: Unicode maps
/// `A`..`Z` to `a`..`z` and gives no other ASCII character a lowercase form. Nothing else is
/// claimed of it.
#[verifier::external_body]
pub(crate) fn to_lowercase(s: &str) -> (r: String)
    ensures
        r@ == lowercased(s@),
        is_ascii_text(s@) ==> r@ == ascii_lowered(s@),
{
    s.to_lowercase()
}

fn lower_letter(k: usize) -> (r: &'static str)
    requires
        k < 26,
    ensures
        r@ == seq![ascii_lower_char(((k + 0x41) as u32) as char)],
{
    let letters = "abcdefghijklmnopqrstuvwxyz";
    proof {
        reveal_strlit("abcdefghijklmnopqrstuvwxyz");
    }
    let r = letters.substring_char(k, k + 1);
    assert(r@ =~= seq![letters@[k as int]]);
    r
}

/// Whether every character of `s` is ASCII.
pub fn is_ascii_str(s: &str) -> (r: bool)
    ensures
        r == is_ascii_text(s@),
{
    let n = s.unicode_len();
    let mut i: usize = 0;
    while i < n
        invariant
            n == s@.len(),
            i <= n,
            forall|k: int| 0 <= k < i ==> (#[trigger] s@[k]) as u32 <= 0x7F,
        decreases n - i,
    {
        if s.get_char(i) as u32 > 0x7F {
            return false;
        }
        i = i + 1;
    }
    true
}

/// The ASCII lowercase of `s` (see `ascii_lowered`), computed character by character.
pub fn ascii_lowercase(s: &str) -> (r: String)
    ensures
        r@ == ascii_lowered(s@),
{
    let n = s.unicode_len();
    let mut r = String::new();
    let mut i: usize = 0;
    while i < n
        invariant
            n == s@.len(),
            i <= n,
            r@ == ascii_lowered(s@.take(i as int)),
        decreases n - i,
    {
        let c = s.get_char(i);
        let v = c as u32;
        if 0x41 <= v && v <= 0x5A {
            r.append(lower_letter((v - 0x41) as usize));
        } else {
            let one = s.substring_char(i, i + 1);
            assert(one@ =~= seq![c]);
            r.append(one);
        }
        assert(ascii_lowered(s@.take(i + 1)) =~= ascii_lowered(s@.take(i as int)).push(ascii_lower_char(c)));
        i = i + 1;
    }
    assert(s@.take(n as int) =~= s@);
    r
}

/// The lowercase form of `s`, as `str::to_lowercase` gives it. ASCII text is lowercased here,
/// character by character; other text by std.
pub fn lowercase(s: &str) -> (r: String)
    ensures
        r@ == lowercased(s@),
        is_ascii_text(s@) ==> r@ == ascii_lowered(s@),
{
    let from_std = to_lowercase(s);
    if is_ascii_str(s) {
        ascii_lowercase(s)
    } else {
        from_std
    }
}

/// ASCII lowercasing keeps the length, lowercases exactly the letters `A`..`Z` and keeps every
/// other character; so text without capital ASCII letters is its own lowercase form, and the
/// lowercase form of ASCII text is ASCII.
pub proof fn law_ascii_lowercase(s: Seq<char>)
    ensures
        ascii_lowered(s).len() == s.len(),
        forall|i: int| 0 <= i < s.len() ==> {
            let c = s[i];
            let d = #[trigger] ascii_lowered(s)[i];
            &&& (0x41 <= c as u32 <= 0x5A ==> d as u32 == c as u32 + 0x20)
            &&& (!(0x41 <= c as u32 <= 0x5A) ==> d == c)
        },
        (forall|i: int| 0 <= i < s.len() ==> !(0x41 <= (#[trigger] s[i]) as u32 <= 0x5A)) ==> ascii_lowered(s) == s,
        is_ascii_text(s) ==> is_ascii_text(ascii_lowered(s)),
{
    if forall|i: int| 0 <= i < s.len() ==> !(0x41 <= (#[trigger] s[i]) as u32 <= 0x5A) {
        assert(ascii_lowered(s) =~= s);
    }
}

} // verus!
