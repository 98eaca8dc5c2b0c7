//! Text as sequences of characters: trimming, searching, splitting and
//! formatting, each with an exact mathematical statement.

use vstd::prelude::*;

verus! {

/// `String::push` appends one character at the end.
pub assume_specification[ String::push ](s: &mut String, c: char)
    ensures
        final(s)@ == old(s)@.push(c),
;

/// The characters with Unicode's `White_Space` property.
pub open spec fn is_space(c: char) -> bool {
    let n = c as u32;
    ||| 0x09 <= n <= 0x0d
    ||| n == 0x20
    ||| n == 0x85
    ||| n == 0xa0
    ||| n == 0x1680
    ||| 0x2000 <= n <= 0x200a
    ||| n == 0x2028
    ||| n == 0x2029
    ||| n == 0x202f
    ||| n == 0x205f
    ||| n == 0x3000
}

/// `s` without the white space at its front.
pub open spec fn trimmed_front(s: Seq<char>) -> Seq<char>
    decreases s.len(),
{
    if s.len() > 0 && is_space(s.first()) {
        trimmed_front(s.drop_first())
    } else {
        s
    }
}

/// `s` without the white space at its end.
pub open spec fn trimmed_back(s: Seq<char>) -> Seq<char>
    decreases s.len(),
{
    if s.len() > 0 && is_space(s.last()) {
        trimmed_back(s.drop_last())
    } else {
        s
    }
}

/// `s` without the white space at both ends.
pub open spec fn trimmed(s: Seq<char>) -> Seq<char> {
    trimmed_back(trimmed_front(s))
}

/// Whether `pat` stands in `s` from position `i` on.
pub open spec fn occurs_at(s: Seq<char>, pat: Seq<char>, i: int) -> bool {
    0 <= i && i + pat.len() <= s.len() && s.subrange(i, i + pat.len()) == pat
}

/// The first position at or after `i` at which `pat` stands in `s`.
pub open spec fn found_from(s: Seq<char>, pat: Seq<char>, i: int) -> Option<int>
    decreases s.len() - i + 1,
{
    if i + pat.len() > s.len() {
        None
    } else if occurs_at(s, pat, i) {
        Some(i)
    } else {
        found_from(s, pat, i + 1)
    }
}

/// The first position at which `pat` stands in `s`.
pub open spec fn found(s: Seq<char>, pat: Seq<char>) -> Option<int> {
    found_from(s, pat, 0)
}

/// Whether `pat` stands somewhere in `s`.
pub open spec fn holds(s: Seq<char>, pat: Seq<char>) -> bool {
    found(s, pat) is Some
}

/// `s` without a carriage return at its end.
pub open spec fn without_cr(s: Seq<char>) -> Seq<char> {
    if s.len() > 0 && s.last() == '\r' {
        s.drop_last()
    } else {
        s
    }
}

/// The lines of `s`. A line ends in a line feed, or in a carriage return and a
/// line feed; the last line need not end in either.
pub open spec fn lines_of(s: Seq<char>) -> Seq<Seq<char>>
    decreases s.len(),
{
    if s.len() == 0 {
        Seq::empty()
    } else {
        match found(s, seq!['\n']) {
            Some(i) => if 0 <= i < s.len() {
                seq![without_cr(s.take(i))] + lines_of(s.skip(i + 1))
            } else {
                Seq::empty()
            },
            None => seq![s],
        }
    }
}

/// The parts with `sep` between each two of them.
pub open spec fn joined(parts: Seq<Seq<char>>, sep: Seq<char>) -> Seq<char>
    decreases parts.len(),
{
    if parts.len() == 0 {
        Seq::empty()
    } else if parts.len() == 1 {
        parts[0]
    } else {
        joined(parts.drop_last(), sep) + sep + parts.last()
    }
}

/// `s` with every `from` turned into `to`.
pub open spec fn replaced(s: Seq<char>, from: char, to: char) -> Seq<char> {
    s.map_values(|c: char| if c == from { to } else { c })
}

/// `s` without any `gone`.
pub open spec fn removed(s: Seq<char>, gone: char) -> Seq<char> {
    s.filter(|c: char| c != gone)
}

/// The decimal digit of a number below ten.
pub open spec fn digit(n: nat) -> char {
    (48 + n) as u32 as char
}

/// The decimal notation of `n`.
pub open spec fn decimal(n: nat) -> Seq<char>
    decreases n,
{
    if n < 10 {
        seq![digit(n)]
    } else {
        decimal(n / 10).push(digit(n % 10))
    }
}

/// Whether `c` is one of `0` to `9`.
pub open spec fn is_digit(c: char) -> bool {
    48 <= c as u32 <= 57
}

/// The digits at the front of `s`.
pub open spec fn leading_digits(s: Seq<char>) -> Seq<char>
    decreases s.len(),
{
    if s.len() > 0 && is_digit(s.first()) {
        seq![s.first()] + leading_digits(s.drop_first())
    } else {
        Seq::empty()
    }
}

/// The number that a sequence of decimal digits denotes.
pub open spec fn numeral(s: Seq<char>) -> nat
    decreases s.len(),
{
    if s.len() == 0 {
        0
    } else {
        (numeral(s.drop_last()) * 10 + (s.last() as u32 - 48)) as nat
    }
}

/// The characters of `s`.
pub fn chars_of(s: &str) -> (r: Vec<char>)
    ensures
        r@ == s@,
{
    let mut r: Vec<char> = Vec::new();
    for c in it: s.chars()
        invariant
            r@ == s@.take(it.index()),
            it.seq() == s@,
    {
        r.push(c);
    }
    r
}

/// The text made of `cs`.
pub fn text_of(cs: &[char]) -> (r: String)
    ensures
        r@ == cs@,
{
    let mut r = String::new();
    for i in 0..cs.len()
        invariant
            r@ == cs@.take(i as int),
    {
        r.push(cs[i]);
    }
    assert(cs@.take(cs@.len() as int) == cs@);
    r
}

/// Whether `c` is white space.
pub fn space(c: char) -> (r: bool)
    ensures
        r == is_space(c),
{
    let n: u32 = c as u32;
    (0x09 <= n && n <= 0x0d) || n == 0x20 || n == 0x85 || n == 0xa0 || n == 0x1680 || (0x2000 <= n
        && n <= 0x200a) || n == 0x2028 || n == 0x2029 || n == 0x202f || n == 0x205f || n == 0x3000
}

/// `s` without the white space at both ends.
pub fn trim(s: &[char]) -> (r: &[char])
    ensures
        r@ == trimmed(s@),
{
    let n = s.len();
    let mut a: usize = 0;
    assert(s@.subrange(0, n as int) == s@);
    while a < n && space(s[a])
        invariant
            a <= n,
            n == s@.len(),
            trimmed_front(s@.subrange(a as int, n as int)) == trimmed_front(s@),
        decreases n - a,
    {
        assert(s@.subrange(a as int, n as int).drop_first() == s@.subrange(a + 1, n as int));
        a = a + 1;
    }
    let mut b: usize = n;
    while b > a && space(s[b - 1])
        invariant
            a <= b <= n,
            n == s@.len(),
            trimmed_back(s@.subrange(a as int, b as int)) == trimmed(s@),
        decreases b,
    {
        assert(s@.subrange(a as int, b as int).drop_last() == s@.subrange(a as int, b - 1));
        b = b - 1;
    }
    vstd::slice::slice_subrange(s, a, b)
}

/// Whether `pat` stands in `s` from position `i` on.
pub fn stands_at(s: &[char], pat: &[char], i: usize) -> (r: bool)
    requires
        i + pat@.len() <= s@.len(),
    ensures
        r == occurs_at(s@, pat@, i as int),
{
    let n = s.len();
    let mut k: usize = 0;
    while k < pat.len()
        invariant
            n == s@.len(),
            k <= pat@.len(),
            i + pat@.len() <= s@.len(),
            forall|j: int| 0 <= j < k ==> s@[i + j] == pat@[j],
        decreases pat@.len() - k,
    {
        if s[i + k] != pat[k] {
            assert(s@.subrange(i as int, i + pat@.len())[k as int] != pat@[k as int]);
            return false;
        }
        k = k + 1;
    }
    assert(s@.subrange(i as int, i + pat@.len()) =~= pat@);
    true
}

/// The first position at which `pat` stands in `s`.
pub fn find(s: &[char], pat: &[char]) -> (r: Option<usize>)
    ensures
        r is Some == found(s@, pat@) is Some,
        r matches Some(i) ==> found(s@, pat@) == Some(i as int) && i + pat@.len() <= s@.len(),
{
    let mut i: usize = 0;
    if pat.len() > s.len() {
        return None;
    }
    let last = s.len() - pat.len();
    while i <= last
        invariant
            last + pat@.len() == s@.len(),
            i <= last + 1,
            found_from(s@, pat@, i as int) == found(s@, pat@),
        decreases last + 1 - i,
    {
        if stands_at(s, pat, i) {
            return Some(i);
        }
        if i == last {
            assert(found_from(s@, pat@, i + 1) is None);
            return None;
        }
        i = i + 1;
    }
    None
}

/// Whether `pat` stands somewhere in `s`.
pub fn contains(s: &[char], pat: &str) -> (r: bool)
    ensures
        r == holds(s@, pat@),
{
    let p = chars_of(pat);
    find(s, p.as_slice()).is_some()
}

/// The lines of `s`.
pub fn lines(s: &[char]) -> (r: Vec<String>)
    ensures
        r.deep_view() == lines_of(s@),
{
    let n = s.len();
    let mut out: Vec<String> = Vec::new();
    let mut a: usize = 0;
    let mut i: usize = 0;
    assert(s@.skip(0) == s@);
    assert(out.deep_view() + lines_of(s@) == lines_of(s@));
    while i < n
        invariant
            a <= i <= n,
            n == s@.len(),
            forall|j: int| a <= j < i ==> s@[j] != '\n',
            out.deep_view() + lines_of(s@.skip(a as int)) == lines_of(s@),
        decreases n - i,
    {
        if s[i] == '\n' {
            let ghost rest = s@.skip(a as int);
            proof {
                lemma_first_char(rest, '\n', i - a);
                assert(rest.take(i - a) == s@.subrange(a as int, i as int));
                assert(rest.skip(i - a + 1) == s@.skip(i + 1));
            }
            let ghost before = out.deep_view();
            let b: usize = if i > a && s[i - 1] == '\r' { i - 1 } else { i };
            let line = text_of(vstd::slice::slice_subrange(s, a, b));
            assert(line@ == without_cr(rest.take(i - a)));
            out.push(line);
            assert(out.deep_view() == before.push(line@));
            assert(before + (seq![line@] + lines_of(s@.skip(i + 1))) == out.deep_view() + lines_of(
                s@.skip(i + 1),
            ));
            a = i + 1;
        }
        i = i + 1;
    }
    let ghost rest = s@.skip(a as int);
    let ghost before = out.deep_view();
    if a < n {
        proof {
            lemma_no_char(rest, '\n');
        }
        let line = text_of(vstd::slice::slice_subrange(s, a, n));
        assert(line@ == rest);
        out.push(line);
        assert(out.deep_view() == before.push(line@));
        assert(before + seq![rest] == out.deep_view());
    } else {
        assert(before + lines_of(rest) == before);
    }
    out
}

/// Trimming the front takes white space alone.
proof fn lemma_trimmed_front(s: Seq<char>)
    ensures
        trimmed_front(s).len() <= s.len(),
        trimmed_front(s) == s.skip(s.len() - trimmed_front(s).len()),
        forall|j: int| 0 <= j < s.len() - trimmed_front(s).len() ==> is_space(s[j]),
        trimmed_front(s).len() > 0 ==> !is_space(trimmed_front(s).first()),
    decreases s.len(),
{
    if s.len() > 0 && is_space(s.first()) {
        let rest = s.drop_first();
        lemma_trimmed_front(rest);
        let k = s.len() - trimmed_front(s).len();
        assert(rest.skip(k - 1) == s.skip(k));
        assert forall|j: int| 0 <= j < k implies is_space(s[j]) by {
            if j > 0 {
                assert(s[j] == rest[j - 1]);
            }
        }
    } else {
        assert(s.skip(0) == s);
    }
}

/// Trimming the end takes white space alone.
proof fn lemma_trimmed_back(s: Seq<char>)
    ensures
        trimmed_back(s).len() <= s.len(),
        trimmed_back(s) == s.take(trimmed_back(s).len() as int),
        forall|j: int| trimmed_back(s).len() <= j < s.len() ==> is_space(s[j]),
        trimmed_back(s).len() > 0 ==> !is_space(trimmed_back(s).last()),
    decreases s.len(),
{
    if s.len() > 0 && is_space(s.last()) {
        let front = s.drop_last();
        lemma_trimmed_back(front);
        let n = trimmed_back(s).len() as int;
        assert(front.take(n) == s.take(n));
        assert forall|j: int| n <= j < s.len() implies is_space(s[j]) by {
            if j < front.len() {
                assert(s[j] == front[j]);
            }
        }
    } else {
        assert(s.take(s.len() as int) == s);
    }
}

/// A trimmed text stays as it is when trimmed again.
pub proof fn lemma_trimmed_twice(s: Seq<char>)
    ensures
        trimmed(trimmed(s)) == trimmed(s),
{
    let a = trimmed_front(s);
    let b = trimmed_back(a);
    lemma_trimmed_front(s);
    lemma_trimmed_back(a);
    if b.len() > 0 {
        assert(b.first() == a.first());
    }
}

/// What stands in a part of a text stands in the text.
pub proof fn lemma_subrange_occurs(s: Seq<char>, a: int, b: int, pat: Seq<char>, i: int)
    requires
        0 <= a <= b <= s.len(),
        occurs_at(s.subrange(a, b), pat, i),
    ensures
        occurs_at(s, pat, a + i),
        a + i + pat.len() <= b,
{
    assert(s.subrange(a + i, a + i + pat.len()) =~= s.subrange(a, b).subrange(i, i + pat.len()));
}

/// What stands in a trimmed text stands in the text.
pub proof fn lemma_trimmed_inside(s: Seq<char>, pat: Seq<char>, i: int)
    requires
        occurs_at(trimmed(s), pat, i),
    ensures
        holds(s, pat),
{
    let a = trimmed_front(s);
    lemma_trimmed_front(s);
    lemma_trimmed_back(a);
    let k = s.len() - a.len();
    let n = trimmed(s).len();
    assert(trimmed(s) =~= s.subrange(k, k + n));
    lemma_subrange_occurs(s, k, k + n, pat, i);
    lemma_occurs_found(s, pat, k + i);
}

/// A text is blank exactly where all of it is white space.
pub proof fn lemma_blank(s: Seq<char>)
    ensures
        trimmed(s).len() == 0 <==> forall|j: int| 0 <= j < s.len() ==> is_space(s[j]),
{
    let a = trimmed_front(s);
    lemma_trimmed_front(s);
    lemma_trimmed_back(a);
    let k = s.len() - a.len();
    if a.len() > 0 {
        assert(a.first() == s[k]);
    }
}

/// What is not blank is not blank behind other text.
pub proof fn lemma_trimmed_suffix(a: Seq<char>, b: Seq<char>)
    requires
        trimmed(b).len() > 0,
    ensures
        trimmed(a + b).len() > 0,
{
    lemma_blank(b);
    lemma_blank(a + b);
    let j = choose|j: int| 0 <= j < b.len() && !is_space(b[j]);
    assert((a + b)[a.len() + j] == b[j]);
}

/// The first line of a text holds no line feed.
pub proof fn lemma_first_line(s: Seq<char>)
    ensures
        lines_of(s).len() > 0 ==> !lines_of(s)[0].contains('\n'),
{
    let pat = seq!['\n'];
    if s.len() > 0 {
        if found(s, pat) is Some {
            lemma_found_occurs(s, pat);
            let i = found(s, pat)->0;
            assert forall|j: int| 0 <= j < i implies s[j] != '\n' by {
                if s[j] == '\n' {
                    assert(s.subrange(j, j + 1) =~= pat);
                    assert(occurs_at(s, pat, j));
                }
            }
        } else {
            assert forall|j: int| 0 <= j < s.len() implies s[j] != '\n' by {
                if s[j] == '\n' {
                    assert(s.subrange(j, j + 1) =~= pat);
                    lemma_occurs_found(s, pat, j);
                }
            }
        }
    }
}

/// Where `pat` stands somewhere in `s`, it is found.
pub proof fn lemma_occurs_found(s: Seq<char>, pat: Seq<char>, i: int)
    requires
        occurs_at(s, pat, i),
    ensures
        holds(s, pat),
{
    lemma_occurs_found_from(s, pat, i, 0);
}

proof fn lemma_occurs_found_from(s: Seq<char>, pat: Seq<char>, i: int, k: int)
    requires
        occurs_at(s, pat, i),
        0 <= k <= i,
    ensures
        found_from(s, pat, k) is Some,
    decreases i - k,
{
    if k < i {
        lemma_occurs_found_from(s, pat, i, k + 1);
    }
}

/// `pat` stands in `s` where it is found, and nowhere before.
pub proof fn lemma_found_occurs(s: Seq<char>, pat: Seq<char>)
    requires
        holds(s, pat),
    ensures
        occurs_at(s, pat, found(s, pat)->0),
        forall|j: int| 0 <= j < found(s, pat)->0 ==> !occurs_at(s, pat, j),
{
    lemma_found_occurs_from(s, pat, 0);
}

proof fn lemma_found_occurs_from(s: Seq<char>, pat: Seq<char>, k: int)
    requires
        found_from(s, pat, k) is Some,
    ensures
        occurs_at(s, pat, found_from(s, pat, k)->0),
        forall|j: int| k <= j < found_from(s, pat, k)->0 ==> !occurs_at(s, pat, j),
    decreases s.len() - k + 1,
{
    if !occurs_at(s, pat, k) {
        lemma_found_occurs_from(s, pat, k + 1);
    }
}

/// The least position at which `pat` stands is the one that is found.
pub proof fn lemma_least_found(s: Seq<char>, pat: Seq<char>, i: int)
    requires
        occurs_at(s, pat, i),
        forall|j: int| occurs_at(s, pat, j) ==> j >= i,
    ensures
        found(s, pat) == Some(i),
{
    lemma_occurs_found(s, pat, i);
    lemma_found_occurs(s, pat);
}

/// The first occurrence of a character is found at its first position.
pub proof fn lemma_first_char(s: Seq<char>, c: char, i: int)
    requires
        0 <= i < s.len(),
        s[i] == c,
        forall|j: int| 0 <= j < i ==> s[j] != c,
    ensures
        found(s, seq![c]) == Some(i),
{
    lemma_first_char_from(s, c, i, 0);
}

proof fn lemma_first_char_from(s: Seq<char>, c: char, i: int, k: int)
    requires
        0 <= k <= i < s.len(),
        s[i] == c,
        forall|j: int| 0 <= j < i ==> s[j] != c,
    ensures
        found_from(s, seq![c], k) == Some(i),
    decreases i - k,
{
    if k == i {
        assert(s.subrange(i, i + 1) =~= seq![c]);
    } else {
        assert(s.subrange(k, k + 1)[0] == s[k]);
        assert(seq![c][0] == c);
        lemma_first_char_from(s, c, i, k + 1);
    }
}

/// A character that does not occur is not found.
pub proof fn lemma_no_char(s: Seq<char>, c: char)
    requires
        forall|j: int| 0 <= j < s.len() ==> s[j] != c,
    ensures
        found(s, seq![c]) is None,
{
    lemma_no_char_from(s, c, 0);
}

proof fn lemma_no_char_from(s: Seq<char>, c: char, k: int)
    requires
        0 <= k,
        forall|j: int| 0 <= j < s.len() ==> s[j] != c,
    ensures
        found_from(s, seq![c], k) is None,
    decreases s.len() - k,
{
    if k + 1 <= s.len() {
        assert(s.subrange(k, k + 1)[0] == s[k]);
        assert(seq![c][0] == c);
        lemma_no_char_from(s, c, k + 1);
    }
}

/// The parts with `sep` between each two of them.
pub fn join(parts: &Vec<String>, sep: &str) -> (r: String)
    ensures
        r@ == joined(parts.deep_view(), sep@),
{
    let mut r = String::new();
    let ghost all = parts.deep_view();
    for i in 0..parts.len()
        invariant
            all == parts.deep_view(),
            r@ == joined(all.take(i as int), sep@),
    {
        let ghost upto = all.take(i + 1);
        assert(upto.drop_last() == all.take(i as int));
        assert(upto.last() == parts@[i as int]@);
        if i > 0 {
            r.append(sep);
        }
        r.append(parts[i].as_str());
    }
    assert(all.take(parts@.len() as int) == all);
    r
}

/// `s` with every `from` turned into `to`.
pub fn replace(s: &[char], from: char, to: char) -> (r: Vec<char>)
    ensures
        r@ == replaced(s@, from, to),
{
    let mut r: Vec<char> = Vec::new();
    for i in 0..s.len()
        invariant
            r@ == replaced(s@, from, to).take(i as int),
    {
        r.push(if s[i] == from { to } else { s[i] });
    }
    r
}

/// `s` without any `gone`.
pub fn remove(s: &[char], gone: char) -> (r: Vec<char>)
    ensures
        r@ == removed(s@, gone),
{
    let mut r: Vec<char> = Vec::new();
    for i in 0..s.len()
        invariant
            r@ == removed(s@.take(i as int), gone),
    {
        reveal(Seq::filter);
        assert(s@.take(i + 1).drop_last() == s@.take(i as int));
        if s[i] != gone {
            r.push(s[i]);
        }
    }
    assert(s@.take(s@.len() as int) == s@);
    r
}

/// What is left holds none of what was removed, and nothing new.
pub proof fn lemma_removed(s: Seq<char>, gone: char)
    ensures
        forall|j: int|
            0 <= j < removed(s, gone).len() ==> #[trigger] removed(s, gone)[j] != gone && s.contains(
                removed(s, gone)[j],
            ),
    decreases s.len(),
{
    reveal(Seq::filter);
    if s.len() > 0 {
        let front = s.drop_last();
        lemma_removed(front, gone);
        assert forall|j: int| 0 <= j < removed(s, gone).len() implies #[trigger] removed(s, gone)[j]
            != gone && s.contains(removed(s, gone)[j]) by {
            if j < removed(front, gone).len() {
                let c = removed(front, gone)[j];
                assert(removed(s, gone)[j] == c);
                let k = choose|k: int| 0 <= k < front.len() && front[k] == c;
                assert(s[k] == c);
            } else {
                assert(s[s.len() - 1] == removed(s, gone)[j]);
            }
        }
    }
}

/// Whether `c` is one of `0` to `9`.
pub fn ascii_digit(c: char) -> (r: bool)
    ensures
        r == is_digit(c),
{
    let n: u32 = c as u32;
    48 <= n && n <= 57
}

fn digit_char(n: u64) -> (c: char)
    requires
        n < 10,
    ensures
        c == digit(n as nat),
{
    match n {
        0 => '0',
        1 => '1',
        2 => '2',
        3 => '3',
        4 => '4',
        5 => '5',
        6 => '6',
        7 => '7',
        8 => '8',
        _ => '9',
    }
}

/// The decimal notation of `n`.
pub fn decimal_text(n: u64) -> (r: String)
    ensures
        r@ == decimal(n as nat),
    decreases n,
{
    if n < 10 {
        let mut r = String::new();
        r.push(digit_char(n));
        r
    } else {
        let mut r = decimal_text(n / 10);
        r.push(digit_char(n % 10));
        r
    }
}

/// `n` spaces followed by `s`.
pub fn indent(n: usize, s: &str) -> (r: String)
    ensures
        r@ == Seq::new(n as nat, |i: int| ' ') + s@,
{
    let mut r = String::new();
    for i in 0..n
        invariant
            r@ == Seq::new(i as nat, |j: int| ' '),
    {
        r.push(' ');
    }
    r.append(s);
    r
}

/// The number that the digits at the front of `s` denote, if there is at least
/// one and the number fits.
pub fn leading_u32(s: &[char]) -> (r: Option<u32>)
    ensures
        r == if leading_digits(s@).len() > 0 && numeral(leading_digits(s@)) <= u32::MAX {
            Some(numeral(leading_digits(s@)) as u32)
        } else {
            None
        },
{
    let n = s.len();
    let mut i: usize = 0;
    let mut value: u64 = 0;
    let ghost all = leading_digits(s@);
    assert(s@.take(0) + leading_digits(s@.skip(0)) == all) by {
        assert(s@.skip(0) == s@);
    }
    while i < n && ascii_digit(s[i])
        invariant
            i <= n,
            n == s@.len(),
            all == s@.take(i as int) + leading_digits(s@.skip(i as int)),
            numeral(s@.take(i as int)) == value,
            value <= u32::MAX,
            all == leading_digits(s@),
        decreases n - i,
    {
        proof {
            let rest = s@.skip(i as int);
            assert(rest.drop_first() == s@.skip(i + 1));
            assert(s@.take(i as int) + (seq![rest.first()] + leading_digits(s@.skip(i + 1)))
                == s@.take(i + 1) + leading_digits(s@.skip(i + 1)));
            assert(s@.take(i + 1).drop_last() == s@.take(i as int));
        }
        let code: u32 = s[i] as u32;
        value = value * 10 + (code - 48) as u64;
        i = i + 1;
        if value > u32::MAX as u64 {
            proof {
                lemma_leading_digits(s@.skip(i as int));
                lemma_numeral_grows(s@.take(i as int), leading_digits(s@.skip(i as int)));
            }
            return None;
        }
    }
    assert(i < n ==> s@.skip(i as int).first() == s@[i as int]);
    assert(all == s@.take(i as int));
    if i == 0 {
        None
    } else {
        Some(value as u32)
    }
}

proof fn lemma_leading_digits(s: Seq<char>)
    ensures
        forall|j: int| 0 <= j < leading_digits(s).len() ==> is_digit(leading_digits(s)[j]),
    decreases s.len(),
{
    if s.len() > 0 && is_digit(s.first()) {
        let rest = leading_digits(s.drop_first());
        lemma_leading_digits(s.drop_first());
        assert forall|j: int| 0 <= j < leading_digits(s).len() implies is_digit(
            leading_digits(s)[j],
        ) by {
            if j > 0 {
                assert(leading_digits(s)[j] == rest[j - 1]);
            }
        }
    }
}

proof fn lemma_numeral_grows(a: Seq<char>, b: Seq<char>)
    requires
        forall|j: int| 0 <= j < b.len() ==> is_digit(b[j]),
    ensures
        numeral(a + b) >= numeral(a),
    decreases b.len(),
{
    if b.len() == 0 {
        assert(a + b == a);
    } else {
        assert((a + b).drop_last() == a + b.drop_last());
        lemma_numeral_grows(a, b.drop_last());
    }
}

/// Trimming takes white space from both ends, all of it, and nothing else.
pub proof fn law_trimmed(s: Seq<char>)
    ensures
        exists|a: Seq<char>, b: Seq<char>|
            {
                &&& s == #[trigger] (a + trimmed(s) + b)
                &&& forall|i: int| 0 <= i < a.len() ==> is_space(a[i])
                &&& forall|i: int| 0 <= i < b.len() ==> is_space(b[i])
            },
        trimmed(s).len() > 0 ==> !is_space(trimmed(s)[0]) && !is_space(
            trimmed(s)[trimmed(s).len() - 1],
        ),
{
    let front = trimmed_front(s);
    let t = trimmed_back(front);
    lemma_trimmed_front(s);
    lemma_trimmed_back(front);
    let a = s.take(s.len() - front.len());
    let b = front.skip(t.len() as int);
    assert(front =~= t + b);
    assert(s =~= a + front);
    assert(s =~= a + trimmed(s) + b);
    assert forall|i: int| 0 <= i < b.len() implies is_space(b[i]) by {
        assert(b[i] == front[t.len() + i]);
    }
    if t.len() > 0 {
        assert(t[0] == front[0]);
    }
}

/// A pattern is found where it stands, and at no place before; it is not found
/// where there is no such place.
pub proof fn law_found(s: Seq<char>, pat: Seq<char>)
    ensures
        match found(s, pat) {
            Some(i) => {
                &&& 0 <= i && i + pat.len() <= s.len()
                &&& s.skip(i).take(pat.len() as int) == pat
                &&& forall|j: int| 0 <= j < i ==> (#[trigger] s.skip(j)).take(pat.len() as int) != pat
            },
            None => forall|j: int|
                0 <= j && j + pat.len() <= s.len() ==> (#[trigger] s.skip(j)).take(pat.len() as int)
                    != pat,
        },
{
    assert forall|j: int| 0 <= j && j + pat.len() <= s.len() implies (#[trigger] s.skip(j)).take(
        pat.len() as int,
    ) == s.subrange(j, j + pat.len()) by {
        assert(s.skip(j).take(pat.len() as int) =~= s.subrange(j, j + pat.len()));
    }
    if holds(s, pat) {
        lemma_found_occurs(s, pat);
        let i = found(s, pat)->0;
        assert(s.skip(i).take(pat.len() as int) == pat);
        assert forall|j: int| 0 <= j < i implies (#[trigger] s.skip(j)).take(pat.len() as int)
            != pat by {
            assert(!occurs_at(s, pat, j));
        }
    } else {
        assert forall|j: int| 0 <= j && j + pat.len() <= s.len() implies (#[trigger] s.skip(j)).take(
            pat.len() as int,
        ) != pat by {
            if s.subrange(j, j + pat.len()) == pat {
                lemma_occurs_found(s, pat, j);
            }
        }
    }
}

/// Lines end at line feeds: a text without one is one line, none where it is empty;
/// what stands in front of the first one is the first line, without a carriage
/// return at its end; and the other lines are those of the rest.
pub proof fn law_lines(a: Seq<char>, b: Seq<char>)
    requires
        forall|i: int| 0 <= i < a.len() ==> a[i] != '\n',
    ensures
        a.len() > 0 ==> lines_of(a) == seq![a],
        a.len() == 0 ==> lines_of(a).len() == 0,
        lines_of(a + seq!['\n'] + b).len() == lines_of(b).len() + 1,
        lines_of(a + seq!['\n'] + b)[0] == if a.len() > 0 && a[a.len() - 1] == '\r' {
            a.take(a.len() - 1)
        } else {
            a
        },
        forall|i: int|
            0 <= i < lines_of(b).len() ==> lines_of(a + seq!['\n'] + b)[i + 1]
                == #[trigger] lines_of(b)[i],
{
    let s = a + seq!['\n'] + b;
    lemma_no_char(a, '\n');
    assert(s[a.len() as int] == '\n');
    lemma_first_char(s, '\n', a.len() as int);
    assert(s.take(a.len() as int) =~= a);
    assert(s.skip(a.len() as int + 1) =~= b);
    if a.len() > 0 {
        assert(a.drop_last() =~= a.take(a.len() - 1));
    }
    assert(lines_of(s) == seq![without_cr(a)] + lines_of(b));
}

/// Joining puts the separator between the parts and nowhere else.
pub proof fn law_joined(parts: Seq<Seq<char>>, part: Seq<char>, sep: Seq<char>)
    ensures
        joined(Seq::empty(), sep).len() == 0,
        joined(seq![part], sep) == part,
        parts.len() > 0 ==> joined(parts.push(part), sep) == joined(parts, sep) + sep + part,
{
    assert(parts.push(part).drop_last() =~= parts);
}

/// Replacing turns each character by itself.
pub proof fn law_replaced(s: Seq<char>, from: char, to: char)
    ensures
        replaced(s, from, to).len() == s.len(),
        forall|i: int|
            0 <= i < s.len() ==> #[trigger] replaced(s, from, to)[i] == if s[i] == from {
                to
            } else {
                s[i]
            },
{
}

/// Removing leaves every other character, in order.
pub proof fn law_removed(s: Seq<char>, c: char, gone: char)
    ensures
        removed(Seq::empty(), gone).len() == 0,
        c == gone ==> removed(s.push(c), gone) == removed(s, gone),
        c != gone ==> removed(s.push(c), gone) == removed(s, gone).push(c),
{
    reveal(Seq::filter);
    assert(s.push(c).drop_last() =~= s);
}

/// The ten digits.
pub proof fn law_digits(c: char, n: nat)
    ensures
        is_digit(c) <==> "0123456789"@.contains(c),
        n < 10 ==> digit(n) == "0123456789"@[n as int],
{
    reveal_strlit("0123456789");
    let all = "0123456789"@;
    if is_digit(c) {
        assert(all[(c as u32 - 48) as int] == c);
    }
}

/// A numeral is read digit by digit, in base ten.
pub proof fn law_numeral(s: Seq<char>, n: nat)
    requires
        n < 10,
    ensures
        numeral(Seq::empty()) == 0,
        numeral(s.push("0123456789"@[n as int])) == numeral(s) * 10 + n,
{
    reveal_strlit("0123456789");
    assert(s.push("0123456789"@[n as int]).drop_last() =~= s);
}

/// The decimal notation of a number denotes that number, consists of digits, and
/// has no zero in front of another digit.
pub proof fn law_decimal(n: nat)
    ensures
        numeral(decimal(n)) == n,
        decimal(n).len() > 0,
        forall|i: int| 0 <= i < decimal(n).len() ==> is_digit(#[trigger] decimal(n)[i]),
        decimal(n).len() > 1 ==> decimal(n)[0] != '0',
    decreases n,
{
    if n < 10 {
        assert(seq![digit(n)].drop_last() =~= Seq::<char>::empty());
        assert(numeral(Seq::empty()) == 0);
    } else {
        let front = decimal(n / 10);
        law_decimal(n / 10);
        assert(decimal(n).drop_last() =~= front);
        assert forall|i: int| 0 <= i < decimal(n).len() implies is_digit(#[trigger] decimal(n)[i]) by {
            if i < front.len() {
                assert(decimal(n)[i] == front[i]);
            }
        }
        assert(decimal(n)[0] == front[0]);
        if front.len() == 1 {
            assert(n / 10 < 10) by {
                if n / 10 >= 10 {
                    law_decimal(n / 100);
                    assert(n / 10 / 10 == n / 100);
                    assert(decimal(n / 10).len() == decimal(n / 10 / 10).len() + 1);
                }
            }
        }
    }
}

/// The digits at the front are all the digits there, up to what is none.
pub proof fn law_leading_digits(digits: Seq<char>, rest: Seq<char>)
    requires
        forall|i: int| 0 <= i < digits.len() ==> is_digit(digits[i]),
        rest.len() > 0 ==> !is_digit(rest[0]),
    ensures
        leading_digits(digits + rest) == digits,
    decreases digits.len(),
{
    let s = digits + rest;
    if digits.len() > 0 {
        assert(s.first() == digits[0]);
        assert(s.drop_first() =~= digits.drop_first() + rest);
        law_leading_digits(digits.drop_first(), rest);
        assert(seq![digits[0]] + digits.drop_first() =~= digits);
    } else {
        assert(s =~= rest);
    }
}

} // verus!
