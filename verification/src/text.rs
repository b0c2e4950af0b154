//! Text as sequences of characters.
use vstd::prelude::*;
use vstd::string::StringExecFns;
use vstd::utf8::{decode_utf8, valid_utf8};

verus! {

/// `String::push`: appends one character.
pub assume_specification[ String::push ](s: &mut String, c: char)
    ensures
        final(s)@ == old(s)@.push(c),
;

/// The characters of each of a list of strings.
pub open spec fn texts(list: Seq<String>) -> Seq<Seq<char>> {
    Seq::new(list.len(), |i: int| list[i]@)
}

/// The decimal digit `d`.
pub open spec fn digit(d: int) -> char {
    (48 + d) as char
}

/// `n` in decimal, without leading zeros.
pub open spec fn decimal(n: int) -> Seq<char>
    decreases n,
{
    if n < 10 {
        seq![digit(n)]
    } else {
        decimal(n / 10).push(digit(n % 10))
    }
}

/// Writes `n` in decimal.
pub fn to_decimal(n: u64) -> (r: String)
    ensures
        r@ == decimal(n as int),
    decreases n,
{
    let last: char = (48 + (n % 10) as u8) as char;
    let mut text = if n < 10 {
        String::new()
    } else {
        to_decimal(n / 10)
    };
    text.push(last);
    text
}

/// A string of the given characters.
pub fn owned(s: &str) -> (r: String)
    ensures
        r@ == s@,
{
    s.to_owned()
}

/// The two strings joined.
pub fn joined(a: &str, b: &str) -> (r: String)
    ensures
        r@ == a@ + b@,
{
    let mut text = a.to_owned();
    text.append(b);
    text
}

/// Appends a string to a list.
pub fn add_arg(list: &mut Vec<String>, s: &str)
    ensures
        texts(final(list)@) == texts(old(list)@).push(s@),
{
    list.push(s.to_owned());
    assert(texts(list@) =~= texts(old(list)@).push(s@));
}

/// Appends two strings to a list.
pub fn add_pair(list: &mut Vec<String>, a: &str, b: &str)
    ensures
        texts(final(list)@) == texts(old(list)@) + seq![a@, b@],
{
    add_arg(list, a);
    add_arg(list, b);
    assert(texts(list@) =~= texts(old(list)@) + seq![a@, b@]);
}

/// Appends one list to another.
pub fn add_args(list: &mut Vec<String>, more: Vec<String>)
    ensures
        texts(final(list)@) == texts(old(list)@) + texts(more@),
{
    let mut rest = more;
    list.append(&mut rest);
    assert(texts(list@) =~= texts(old(list)@) + texts(more@));
}

/// What bytes stand for as UTF-8, where what is no UTF-8 is replaced.
pub uninterp spec fn lossy_text(bytes: Seq<u8>) -> Seq<char>;

/// `String::from_utf8_lossy`: the text that bytes stand for as UTF-8, which is the decoded
/// text where they are UTF-8, and starts with the decoded text of what is UTF-8 at their
/// start. What stands in for the rest, and where, is not said.
#[verifier::external_body]
fn from_utf8_lossy(bytes: &Vec<u8>) -> (r: String)
    ensures
        r@ == lossy_text(bytes@),
        valid_utf8(bytes@) ==> r@ == decode_utf8(bytes@),
        forall|n: int|
            0 <= n <= bytes@.len() && valid_utf8(#[trigger] bytes@.take(n)) ==> decode_utf8(
                bytes@.take(n),
            ).is_prefix_of(r@),
{
    String::from_utf8_lossy(bytes).into_owned()
}

/// What a program wrote, as text. All of it is kept: what is no UTF-8 is replaced.
pub fn output_text(bytes: &Vec<u8>) -> (r: String)
    ensures
        r@ == lossy_text(bytes@),
        valid_utf8(bytes@) ==> r@ == decode_utf8(bytes@),
        forall|n: int|
            0 <= n <= bytes@.len() && valid_utf8(#[trigger] bytes@.take(n)) ==> decode_utf8(
                bytes@.take(n),
            ).is_prefix_of(r@),
{
    from_utf8_lossy(bytes)
}

/// Whether `c` is white space: the characters that Unicode gives the property
/// `White_Space`.
pub open spec fn is_white_space(c: char) -> bool {
    let n = c as int;
    ||| 9 <= n <= 13
    ||| n == 0x20
    ||| n == 0x85
    ||| n == 0xA0
    ||| n == 0x1680
    ||| 0x2000 <= n <= 0x200A
    ||| n == 0x2028
    ||| n == 0x2029
    ||| n == 0x202F
    ||| n == 0x205F
    ||| n == 0x3000
}

/// `s` without the white space at its start.
pub open spec fn trim_start(s: Seq<char>) -> Seq<char>
    decreases s.len(),
{
    if s.len() > 0 && is_white_space(s[0]) {
        trim_start(s.drop_first())
    } else {
        s
    }
}

/// `s` without the white space at its end.
pub open spec fn trim_end(s: Seq<char>) -> Seq<char>
    decreases s.len(),
{
    if s.len() > 0 && is_white_space(s.last()) {
        trim_end(s.drop_last())
    } else {
        s
    }
}

/// `s` without the white space at its start and at its end.
pub open spec fn trim(s: Seq<char>) -> Seq<char> {
    trim_end(trim_start(s))
}

/// Where `c` first occurs in `s`, or the length of `s` if it does not.
pub open spec fn find(s: Seq<char>, c: char) -> int
    decreases s.len(),
{
    if s.len() == 0 || s[0] == c {
        0
    } else {
        1 + find(s.drop_first(), c)
    }
}

/// What stands before and after the first `c` in `s`, if there is one, each without
/// white space round it.
pub open spec fn split_trimmed(s: Seq<char>, c: char) -> Option<(Seq<char>, Seq<char>)> {
    let at = find(s, c);
    if at < s.len() {
        Some((trim(s.take(at)), trim(s.skip(at + 1))))
    } else {
        None
    }
}

/// The lines of a text, which line feeds separate.
pub open spec fn lines(s: Seq<char>) -> Seq<Seq<char>>
    decreases s.len(),
{
    let at = find(s, '\n');
    if 0 <= at < s.len() {
        seq![s.take(at)] + lines(s.skip(at + 1))
    } else {
        seq![s]
    }
}

/// Whether `part` stands somewhere in `s`.
pub open spec fn contains_text(s: Seq<char>, part: Seq<char>) -> bool {
    exists|i: int| #[trigger] stands_at(s, part, i)
}

/// Whether `part` stands in `s` from `i` on.
pub open spec fn stands_at(s: Seq<char>, part: Seq<char>, i: int) -> bool {
    0 <= i <= s.len() - part.len() && s.subrange(i, i + part.len()) == part
}

/// Whether `s` consists of decimal digits alone.
pub open spec fn all_digits(s: Seq<char>) -> bool {
    forall|i: int| 0 <= i < s.len() ==> 48 <= (#[trigger] s[i]) as int <= 57
}

/// The number that a sequence of decimal digits stands for.
pub open spec fn number(s: Seq<char>) -> int
    decreases s.len(),
{
    if s.len() == 0 {
        0
    } else {
        10 * number(s.drop_last()) + (s.last() as int - 48)
    }
}

/// `s` without a plus sign in front.
pub open spec fn unsigned(s: Seq<char>) -> Seq<char> {
    if s.len() > 0 && s[0] == '+' {
        s.drop_first()
    } else {
        s
    }
}

/// The number that `s` stands for, if `s` is one that fits in 32 bits: decimal digits,
/// with a plus sign in front or without.
pub open spec fn spec_parse_u32(s: Seq<char>) -> Option<int> {
    let body = unsigned(s);
    if body.len() > 0 && all_digits(body) && number(body) <= u32::MAX {
        Some(number(body))
    } else {
        None
    }
}

/// The characters of a string.
pub fn chars_of(s: &str) -> (r: Vec<char>)
    ensures
        r@ == s@,
{
    let mut r: Vec<char> = Vec::new();
    for c in it: s.chars()
        invariant
            r@ == it.seq().take(it.index() as int),
            it.seq() == s@,
    {
        r.push(c);
    }
    r
}

/// A string of the characters from `from` up to `to`.
pub fn text_of(s: &Vec<char>, from: usize, to: usize) -> (r: String)
    requires
        from <= to <= s@.len(),
    ensures
        r@ == s@.subrange(from as int, to as int),
{
    let mut r = String::new();
    let mut i: usize = from;
    while i < to
        invariant
            from <= i <= to <= s@.len(),
            r@ == s@.subrange(from as int, i as int),
        decreases to - i,
    {
        r.push(s[i]);
        assert(s@.subrange(from as int, i + 1) =~= s@.subrange(from as int, i as int).push(
            s@[i as int],
        ));
        i = i + 1;
    }
    r
}

/// Whether `c` is white space.
pub fn white_space(c: char) -> (r: bool)
    ensures
        r == is_white_space(c),
{
    let n: u32 = c as u32;
    (9 <= n && n <= 13) || n == 0x20 || n == 0x85 || n == 0xA0 || n == 0x1680 || (0x2000 <= n && n
        <= 0x200A) || n == 0x2028 || n == 0x2029 || n == 0x202F || n == 0x205F || n == 0x3000
}

/// Where the characters of `s` from `from` up to `to` start and end without the white
/// space round them.
fn trimmed(s: &Vec<char>, from: usize, to: usize) -> (r: (usize, usize))
    requires
        from <= to <= s@.len(),
    ensures
        from <= r.0 <= r.1 <= to,
        trim(s@.subrange(from as int, to as int)) == s@.subrange(r.0 as int, r.1 as int),
{
    let ghost whole = s@.subrange(from as int, to as int);
    let mut a: usize = from;
    while a < to && white_space(s[a])
        invariant
            from <= a <= to <= s@.len(),
            trim_start(whole) == trim_start(s@.subrange(a as int, to as int)),
        decreases to - a,
    {
        assert(s@.subrange(a as int, to as int).drop_first() =~= s@.subrange(a + 1, to as int));
        a = a + 1;
    }
    let mut b: usize = to;
    while b > a && white_space(s[b - 1])
        invariant
            from <= a <= b <= to <= s@.len(),
            trim(whole) == trim_end(s@.subrange(a as int, b as int)),
        decreases b - a,
    {
        assert(s@.subrange(a as int, b as int).drop_last() =~= s@.subrange(a as int, b - 1));
        b = b - 1;
    }
    (a, b)
}

/// The characters of `s` from `from` up to `to` without the white space round them.
fn trimmed_text(s: &Vec<char>, from: usize, to: usize) -> (r: String)
    requires
        from <= to <= s@.len(),
    ensures
        r@ == trim(s@.subrange(from as int, to as int)),
{
    let (a, b) = trimmed(s, from, to);
    text_of(s, a, b)
}

/// Where `c` first occurs in `s` from `from` up to `to`, or `to` if it does not.
fn find_char(s: &Vec<char>, c: char, from: usize, to: usize) -> (r: usize)
    requires
        from <= to <= s@.len(),
    ensures
        from <= r <= to,
        r == from + find(s@.subrange(from as int, to as int), c),
{
    let mut i: usize = from;
    while i < to && s[i] != c
        invariant
            from <= i <= to <= s@.len(),
            from + find(s@.subrange(from as int, to as int), c) == i + find(
                s@.subrange(i as int, to as int),
                c,
            ),
        decreases to - i,
    {
        assert(s@.subrange(i as int, to as int).drop_first() =~= s@.subrange(i + 1, to as int));
        i = i + 1;
    }
    i
}

/// What stands before and after the first `c` among the characters of `s` from `from`
/// up to `to`, if there is one, each without white space round it.
fn split_range(s: &Vec<char>, c: char, from: usize, to: usize) -> (r: Option<(String, String)>)
    requires
        from <= to <= s@.len(),
    ensures
        match r {
            Some((before, after)) => split_trimmed(s@.subrange(from as int, to as int), c) == Some(
                (before@, after@),
            ),
            None => split_trimmed(s@.subrange(from as int, to as int), c) is None,
        },
{
    let at: usize = find_char(s, c, from, to);
    if at >= to {
        return None;
    }
    let ghost whole = s@.subrange(from as int, to as int);
    assert(whole.take(at - from) =~= s@.subrange(from as int, at as int));
    assert(whole.skip(at - from + 1) =~= s@.subrange(at + 1, to as int));
    Some((trimmed_text(s, from, at), trimmed_text(s, at + 1, to)))
}

/// What stands before and after the first `c` in `s`, if there is one, each without
/// white space round it.
pub fn split_at_char(s: &str, c: char) -> (r: Option<(String, String)>)
    ensures
        match r {
            Some((before, after)) => split_trimmed(s@, c) == Some((before@, after@)),
            None => split_trimmed(s@, c) is None,
        },
{
    let chars = chars_of(s);
    let n: usize = chars.len();
    assert(s@.subrange(0, n as int) =~= s@);
    split_range(&chars, c, 0, n)
}

/// The value that the last line for `key` gives it, of lines that each give a key and,
/// behind an equals sign, its value. A line without an equals sign gives nothing.
pub open spec fn last_value(list: Seq<Seq<char>>, key: Seq<char>) -> Option<Seq<char>>
    decreases list.len(),
{
    if list.len() == 0 {
        None
    } else {
        match split_trimmed(list.last(), '=') {
            Some((k, v)) if k == key => Some(v),
            _ => last_value(list.drop_last(), key),
        }
    }
}

/// The value that a text gives `key`.
pub open spec fn spec_value_of(text: Seq<char>, key: Seq<char>) -> Option<Seq<char>> {
    last_value(lines(text), key)
}

/// Whether two strings are equal.
pub fn same(a: &String, b: &str) -> (r: bool)
    ensures
        r == (a@ == b@),
{
    *a == b.to_owned()
}

/// The value that a text gives `key`: that of the last line for the key, of lines that
/// each give a key and, behind an equals sign, its value.
pub fn value_of(text: &str, key: &str) -> (r: Option<String>)
    ensures
        r is Some <==> spec_value_of(text@, key@) is Some,
        r matches Some(v) ==> spec_value_of(text@, key@) == Some(v@),
{
    let chars = chars_of(text);
    let n: usize = chars.len();
    let mut start: usize = 0;
    let mut found: Option<String> = None;
    let ghost mut done: Seq<Seq<char>> = seq![];
    assert(chars@.subrange(0, n as int) =~= text@);
    loop
        invariant
            start <= n == chars@.len(),
            chars@ == text@,
            lines(text@) == done + lines(chars@.subrange(start as int, n as int)),
            found is Some <==> last_value(done, key@) is Some,
            found matches Some(v) ==> last_value(done, key@) == Some(v@),
        decreases n - start,
    {
        let ghost rest = chars@.subrange(start as int, n as int);
        let end: usize = find_char(&chars, '\n', start, n);
        let entry = split_range(&chars, '=', start, end);
        let ghost line = chars@.subrange(start as int, end as int);
        let ghost next = done.push(line);
        assert(next.drop_last() =~= done);
        match entry {
            Some((k, v)) => {
                if same(&k, key) {
                    found = Some(v);
                }
            },
            None => {},
        }
        if end >= n {
            assert(lines(rest) =~= seq![line]);
            assert(lines(text@) =~= next);
            return found;
        }
        proof {
            assert(rest.take(end - start) =~= line);
            assert(rest.skip(end - start + 1) =~= chars@.subrange(end + 1, n as int));
            assert(lines(text@) =~= next + lines(chars@.subrange(end + 1, n as int)));
            done = next;
        }
        start = end + 1;
    }
}

/// Whether `part` stands in `s` from `i` on.
fn matches_at(s: &Vec<char>, part: &Vec<char>, i: usize) -> (r: bool)
    requires
        i + part@.len() <= s@.len(),
    ensures
        r == stands_at(s@, part@, i as int),
{
    let total: usize = s.len();
    let mut k: usize = 0;
    while k < part.len()
        invariant
            k <= part@.len(),
            i + part@.len() <= s@.len() == total,
            forall|m: int| 0 <= m < k ==> s@[i + m] == part@[m],
        decreases part@.len() - k,
    {
        if s[i + k] != part[k] {
            assert(s@.subrange(i as int, i + part@.len())[k as int] != part@[k as int]);
            return false;
        }
        k = k + 1;
    }
    assert(s@.subrange(i as int, i + part@.len()) =~= part@);
    true
}

/// Whether `part` stands somewhere in `s`.
pub fn contains(s: &str, part: &str) -> (r: bool)
    ensures
        r == contains_text(s@, part@),
{
    let text = chars_of(s);
    let wanted = chars_of(part);
    let mut i: usize = 0;
    while i < text.len() && wanted.len() <= text.len() - i
        invariant
            i <= text@.len(),
            text@ == s@,
            wanted@ == part@,
            forall|m: int| 0 <= m < i ==> !#[trigger] stands_at(s@, part@, m),
        decreases text@.len() - i,
    {
        if matches_at(&text, &wanted, i) {
            return true;
        }
        i = i + 1;
    }
    if wanted.len() == 0 {
        assert(stands_at(s@, part@, s@.len() as int)) by {
            assert(s@.subrange(s@.len() as int, s@.len() as int) =~= part@);
        }
        return true;
    }
    assert forall|m: int| !#[trigger] stands_at(s@, part@, m) by {}
    false
}

/// Whether `c` is a decimal digit.
fn is_digit(c: char) -> (r: bool)
    ensures
        r == (48 <= c as int <= 57),
{
    let n: u32 = c as u32;
    48 <= n && n <= 57
}

/// The number that a decimal digit stands for.
fn digit_value(c: char) -> (r: u32)
    requires
        48 <= c as int <= 57,
    ensures
        r == c as int - 48,
{
    c as u32 - 48
}

/// The number that `s` stands for, if `s` is one that fits in 32 bits.
pub fn parse_u32(s: &str) -> (r: Option<u32>)
    ensures
        r is Some <==> spec_parse_u32(s@) is Some,
        r matches Some(n) ==> spec_parse_u32(s@) == Some(n as int),
{
    let chars = chars_of(s);
    let n: usize = chars.len();
    let from: usize = if n > 0 && chars[0] == '+' {
        1
    } else {
        0
    };
    let ghost body = unsigned(s@);
    assert(body =~= chars@.skip(from as int));
    if from == n {
        return None;
    }
    let mut value: u64 = 0;
    let mut i: usize = from;
    while i < n
        invariant
            from <= i <= n == chars@.len(),
            body == chars@.skip(from as int),
            all_digits(body.take(i - from)),
            value == number(body.take(i - from)),
            value <= u32::MAX,
            body.len() > 0,
            spec_parse_u32(s@) == if all_digits(body) && number(body) <= u32::MAX {
                Some(number(body))
            } else {
                None
            },
        decreases n - i,
    {
        let c: char = chars[i];
        if !is_digit(c) {
            assert(body[i - from] == c);
            assert(!all_digits(body));
            return None;
        }
        let ghost before = body.take(i - from);
        let ghost after = body.take(i + 1 - from);
        assert(after.drop_last() =~= before);
        assert(after.last() == c);
        assert(all_digits(after)) by {
            assert forall|m: int| 0 <= m < after.len() implies 48 <= (#[trigger] after[m]) as int
                <= 57 by {
                if m < before.len() {
                    assert(after[m] == before[m]);
                }
            }
        }
        value = value * 10 + digit_value(c) as u64;
        if value > u32::MAX as u64 {
            proof {
                if all_digits(body) {
                    lemma_number_grows(body, i + 1 - from);
                }
            }
            return None;
        }
        i = i + 1;
    }
    assert(body.take(n - from) =~= body);
    Some(value as u32)
}

/// A sequence of digits stands for at least what its first digits stand for.
proof fn lemma_number_grows(s: Seq<char>, n: int)
    requires
        all_digits(s),
        0 <= n <= s.len(),
    ensures
        0 <= number(s.take(n)) <= number(s),
    decreases s.len(),
{
    if n < s.len() {
        let front = s.drop_last();
        assert(front.take(n) =~= s.take(n));
        assert(all_digits(front)) by {
            assert forall|m: int| 0 <= m < front.len() implies 48 <= (#[trigger] front[m]) as int
                <= 57 by {
                assert(front[m] == s[m]);
            }
        }
        lemma_number_grows(front, n);
        assert(48 <= s[s.len() - 1] as int);
    } else {
        assert(s.take(n) =~= s);
        if n > 0 {
            assert(s.take(n - 1) =~= s.drop_last());
            lemma_number_grows(s.drop_last(), n - 1);
            assert(48 <= s[n - 1] as int);
        }
    }
}

/// A number written in decimal is read back as the same number.
pub proof fn law_decimal_reads_back(n: u32)
    ensures
        spec_parse_u32(decimal(n as int)) == Some(n as int),
{
    lemma_decimal(n as int);
    assert(decimal(n as int)[0] as int != '+' as int);
}

/// What is written in decimal is digits alone, and stands for the number.
proof fn lemma_decimal(n: int)
    requires
        0 <= n,
    ensures
        decimal(n).len() > 0,
        all_digits(decimal(n)),
        number(decimal(n)) == n,
    decreases n,
{
    let s = decimal(n);
    if n < 10 {
        assert(s.drop_last() =~= Seq::<char>::empty());
        assert(number(s.drop_last()) == 0);
    } else {
        lemma_decimal(n / 10);
        assert(s.drop_last() =~= decimal(n / 10));
        assert forall|m: int| 0 <= m < s.len() implies 48 <= (#[trigger] s[m]) as int <= 57 by {
            if m < s.len() - 1 {
                assert(s[m] == decimal(n / 10)[m]);
            }
        }
    }
}

/// A line that gives a key its value.
pub open spec fn entry_text(key: Seq<char>, value: Seq<char>) -> Seq<char> {
    key.push('=') + value
}

/// A text that gives keys their values, each on a line of its own.
pub open spec fn report_text(entries: Seq<(Seq<char>, Seq<char>)>) -> Seq<char>
    decreases entries.len(),
{
    if entries.len() == 0 {
        seq![]
    } else {
        entry_text(entries[0].0, entries[0].1).push('\n') + report_text(entries.drop_first())
    }
}

/// Whether a key and its value can be told apart on a line: neither has white space round
/// it or a line feed in it, and the key has no equals sign.
pub open spec fn is_plain(key: Seq<char>, value: Seq<char>) -> bool {
    &&& trim(key) == key
    &&& trim(value) == value
    &&& !key.contains('=')
    &&& !key.contains('\n')
    &&& !value.contains('\n')
}

/// Whether the keys are different and can be told apart from their values.
pub open spec fn are_entries(entries: Seq<(Seq<char>, Seq<char>)>) -> bool {
    &&& forall|i: int|
        0 <= i < entries.len() ==> is_plain((#[trigger] entries[i]).0, entries[i].1)
    &&& forall|i: int, j: int|
        0 <= i < j < entries.len() ==> (#[trigger] entries[i]).0 != (#[trigger] entries[j]).0
}

/// What a text gives a key is read back as its value, whatever other keys it gives values
/// and in whatever order.
pub proof fn law_report_reads_back(entries: Seq<(Seq<char>, Seq<char>)>, i: int)
    requires
        are_entries(entries),
        0 <= i < entries.len(),
    ensures
        spec_value_of(report_text(entries), entries[i].0) == Some(entries[i].1),
{
    lemma_report_lines(entries);
    let list = lines(report_text(entries));
    let (key, value) = entries[i];
    lemma_entry(key, value);
    assert forall|j: int| i < j < list.len() implies (split_trimmed(#[trigger] list[j], '=') matches
        Some((k, _)) ==> k != key) by {
        if j < entries.len() {
            assert(is_plain(entries[j].0, entries[j].1));
            lemma_entry(entries[j].0, entries[j].1);
        } else {
            lemma_find(list[j], '=', 0);
        }
    }
    law_last_value(list, key, value, i);
}

/// A key has the value of the last line for it.
pub proof fn law_last_value(list: Seq<Seq<char>>, key: Seq<char>, value: Seq<char>, i: int)
    requires
        0 <= i < list.len(),
        split_trimmed(list[i], '=') == Some((key, value)),
        forall|j: int|
            i < j < list.len() ==> (split_trimmed(#[trigger] list[j], '=') matches Some((k, _))
                ==> k != key),
    ensures
        last_value(list, key) == Some(value),
    decreases list.len(),
{
    if i < list.len() - 1 {
        let front = list.drop_last();
        assert(list[list.len() - 1] == list.last());
        assert forall|j: int| i < j < front.len() implies (split_trimmed(#[trigger] front[j], '=')
            matches Some((k, _)) ==> k != key) by {
            assert(front[j] == list[j]);
        }
        law_last_value(front, key, value, i);
    }
}

/// Where a character first occurs.
pub(crate) proof fn lemma_find(s: Seq<char>, c: char, at: int)
    requires
        0 <= at <= s.len(),
        forall|i: int| 0 <= i < at ==> #[trigger] s[i] != c,
        at < s.len() ==> s[at] == c,
    ensures
        find(s, c) == at,
    decreases s.len(),
{
    if at > 0 {
        let rest = s.drop_first();
        assert(s[0] != c);
        assert forall|i: int| 0 <= i < at - 1 implies #[trigger] rest[i] != c by {
            assert(rest[i] == s[i + 1]);
        }
        lemma_find(rest, c, at - 1);
    }
}

/// A line that gives a key its value is read as such.
pub(crate) proof fn lemma_entry(key: Seq<char>, value: Seq<char>)
    requires
        is_plain(key, value),
    ensures
        split_trimmed(entry_text(key, value), '=') == Some((key, value)),
{
    let line = entry_text(key, value);
    let at = key.len() as int;
    assert forall|i: int| 0 <= i < at implies #[trigger] line[i] != '=' by {
        assert(key.contains(key[i]));
    }
    lemma_find(line, '=', at);
    assert(line.take(at) =~= key);
    assert(line.skip(at + 1) =~= value);
}

/// The lines of a report are those of its entries, and an empty one.
pub(crate) proof fn lemma_report_lines(entries: Seq<(Seq<char>, Seq<char>)>)
    requires
        are_entries(entries),
    ensures
        lines(report_text(entries)) == Seq::new(
            entries.len(),
            |i: int| entry_text(entries[i].0, entries[i].1),
        ).push(seq![]),
    decreases entries.len(),
{
    let text = report_text(entries);
    let expected = Seq::new(entries.len(), |i: int| entry_text(entries[i].0, entries[i].1)).push(
        seq![],
    );
    if entries.len() == 0 {
        lemma_find(text, '\n', 0);
        assert(lines(text) =~= expected);
    } else {
        let rest = entries.drop_first();
        assert forall|i: int| 0 <= i < rest.len() implies is_plain(
            (#[trigger] rest[i]).0,
            rest[i].1,
        ) by {
            assert(rest[i] == entries[i + 1]);
        }
        assert forall|i: int, j: int| 0 <= i < j < rest.len() implies (#[trigger] rest[i]).0 != (
        #[trigger] rest[j]).0 by {
            assert(rest[i] == entries[i + 1] && rest[j] == entries[j + 1]);
        }
        lemma_report_lines(rest);
        let (key, value) = entries[0];
        assert(is_plain(key, value));
        let line = entry_text(key, value);
        let at = line.len() as int;
        assert forall|i: int| 0 <= i < at implies #[trigger] text[i] != '\n' by {
            if i < key.len() {
                assert(key.contains(key[i]));
            } else if i > key.len() {
                assert(text[i] == value[i - key.len() - 1]);
                assert(value.contains(value[i - key.len() - 1]));
            }
        }
        lemma_find(text, '\n', at);
        assert(text.take(at) =~= line);
        assert(text.skip(at + 1) =~= report_text(rest));
        assert(lines(text) =~= expected) by {
            assert forall|i: int| 0 < i < expected.len() implies expected[i] == lines(
                report_text(rest),
            )[i - 1] by {
                if i < entries.len() {
                    assert(rest[i - 1] == entries[i]);
                }
            }
        }
    }
}

} // verus!
