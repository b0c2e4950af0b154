//! What is read of the texts that FFmpeg writes.
use vstd::prelude::*;
use vstd::utf8::encode_utf8;
use crate::ffmpeg_decoder::{
    ascii_lowercase_text, choose_frame_rate, is_ascii_text, lowercase, probe_metadata,
    rational_parts, read_report, reports_fallback, test_decode, ProbeError, StreamFields,
};
use crate::ffmpeg_encoder::EncodeError;
use crate::text::{
    all_digits, are_entries, chars_of, contains, contains_text, find, is_plain, is_white_space,
    joined, last_value, law_decimal_reads_back, law_report_reads_back, lemma_entry, lemma_find,
    lemma_report_lines, lines, number, output_text, owned, parse_u32, report_text, same,
    split_at_char, split_trimmed, stands_at, text_of, to_decimal, trim, trim_end, trim_start,
    unsigned, value_of,
};

verus! {

/// A number is written digit by digit: ten times a number and a digit is that number with
/// the digit behind it; numbers below ten are one digit.
pub proof fn law_decimal(n: u64, d: u64, r: String, front: String)
    requires
        d < 10,
        n * 10 + d <= u64::MAX,
        to_decimal.ensures(((n * 10 + d) as u64,), r),
        to_decimal.ensures((n,), front),
    ensures
        n == 0 ==> r@ =~= seq![(48 + d) as char],
        n > 0 ==> r@ =~= front@.push((48 + d) as char),
{
    assert((n * 10 + d) / 10 == n && (n * 10 + d) % 10 == d as int);
}

/// A number that was written in decimal is read as that number.
pub proof fn law_written_numbers_are_read(n: u32, text: String, s: &str, r: Option<u32>)
    requires
        to_decimal.ensures((n as u64,), text),
        s@ == text@,
        parse_u32.ensures((s,), r),
    ensures
        r == Some(n),
{
    law_decimal_reads_back(n);
}

/// Nothing is read as a number but digits, with a plus sign in front or without, of which
/// there is one at least.
pub proof fn law_only_digits_are_numbers(s: &str, r: Option<u32>, i: int)
    requires
        parse_u32.ensures((s,), r),
        r is Some,
    ensures
        s@.len() > 0,
        s@[0] == '+' ==> s@.len() > 1,
        0 < i < s@.len() ==> '0' <= s@[i] <= '9',
        s@[0] == '+' || '0' <= s@[0] <= '9',
{
    let body = unsigned(s@);
    assert(all_digits(body));
    if s@[0] == '+' {
        if 0 < i < s@.len() {
            assert(body[i - 1] == s@[i]);
        }
    } else {
        if 0 < i < s@.len() {
            assert(48 <= body[i] as int <= 57);
        }
        assert(48 <= body[0] as int <= 57);
    }
}

/// A digit behind a number makes it ten times as large and adds the digit, as long as 32
/// bits hold it; a character that is no digit makes it none.
pub proof fn law_numbers_grow_by_digits(
    s: &str,
    t: &str,
    c: char,
    front: Option<u32>,
    r: Option<u32>,
)
    requires
        parse_u32.ensures((s,), front),
        parse_u32.ensures((t,), r),
        t@ == s@.push(c),
        front is Some,
    ensures
        !('0' <= c <= '9') ==> r is None,
        '0' <= c <= '9' && 10 * front->0 + (c as int - 48) <= u32::MAX ==> (r matches Some(n) && n
            == 10 * front->0 + (c as int - 48)),
        '0' <= c <= '9' && 10 * front->0 + (c as int - 48) > u32::MAX ==> r is None,
{
    let (a, b) = (unsigned(s@), unsigned(t@));
    assert(s@.len() > 0);
    assert(b =~= a.push(c));
    assert(b.drop_last() =~= a);
    if '0' <= c <= '9' {
        assert forall|i: int| 0 <= i < b.len() implies 48 <= (#[trigger] b[i]) as int <= 57 by {
            if i < a.len() {
                assert(b[i] == a[i]);
            }
        }
        assert(all_digits(b));
    } else {
        assert(b[a.len() as int] == c);
        assert(!all_digits(b));
    }
}

/// What is no number does not become one by a character behind it, but for a plus sign and
/// nothing at all.
pub proof fn law_no_number_stays_none(s: &str, t: &str, c: char, front: Option<u32>, r: Option<u32>)
    requires
        parse_u32.ensures((s,), front),
        parse_u32.ensures((t,), r),
        t@ == s@.push(c),
        front is None,
        s@.len() > 0,
        s@ != seq!['+'],
    ensures
        r is None,
{
    let (a, b) = (unsigned(s@), unsigned(t@));
    assert(b =~= a.push(c));
    assert(b.drop_last() =~= a);
    if a.len() == 0 {
        assert(s@ =~= seq!['+']);
    }
    if all_digits(b) {
        assert forall|i: int| 0 <= i < a.len() implies 48 <= (#[trigger] a[i]) as int <= 57 by {
            assert(b[i] == a[i]);
        }
        assert(all_digits(a));
        assert(b[a.len() as int] == c);
    }
}

/// A plus sign in front of a number changes nothing; a second one makes it none.
pub proof fn law_plus_sign(s: &str, t: &str, plain: Option<u32>, r: Option<u32>)
    requires
        parse_u32.ensures((s,), plain),
        parse_u32.ensures((t,), r),
        t@ == seq!['+'] + s@,
        s@.len() > 0,
    ensures
        s@[0] != '+' ==> r == plain,
        s@[0] == '+' ==> r is None,
{
    assert(unsigned(t@) =~= s@);
    if s@[0] == '+' {
        assert(!all_digits(s@));
    }
}

/// A single digit is read as its value.
pub proof fn law_digits_are_numbers(s: &str, c: char, r: Option<u32>)
    requires
        parse_u32.ensures((s,), r),
        s@ == seq![c],
        '0' <= c <= '9',
    ensures
        r matches Some(n) && n == c as int - 48,
{
    let a = unsigned(s@);
    assert(a =~= s@);
    assert(a.drop_last() =~= seq![]);
    assert(number(a.drop_last()) == 0);
    assert(all_digits(a));
}

/// One text stands in another exactly if the other is made of something, the text, and
/// something.
pub proof fn law_contains(s: &str, part: &str, r: bool)
    requires
        contains.ensures((s, part), r),
    ensures
        r <==> exists|before: Seq<char>, after: Seq<char>|
            s@ == #[trigger] (before + part@ + after),
{
    if r {
        let i = choose|i: int| #[trigger] stands_at(s@, part@, i);
        let before = s@.take(i);
        let after = s@.skip(i + part@.len());
        assert(s@ =~= before + part@ + after) by {
            assert forall|k: int| 0 <= k < s@.len() implies s@[k] == (before + part@ + after)[k] by {
                if i <= k < i + part@.len() {
                    assert(s@.subrange(i, i + part@.len())[k - i] == part@[k - i]);
                }
            }
        }
    }
    if exists|before: Seq<char>, after: Seq<char>| s@ == #[trigger] (before + part@ + after) {
        let (before, after) = choose|before: Seq<char>, after: Seq<char>|
            s@ == #[trigger] (before + part@ + after);
        let i = before.len() as int;
        assert(s@.subrange(i, i + part@.len()) =~= part@);
        assert(stands_at(s@, part@, i));
    }
}

/// Whether `t` is what is left of `s` when the white space at both ends is taken away.
pub open spec fn is_trimmed(t: Seq<char>, s: Seq<char>) -> bool {
    exists|i: int, j: int|
        {
            &&& 0 <= i <= j <= s.len()
            &&& t == #[trigger] s.subrange(i, j)
            &&& forall|k: int| 0 <= k < i ==> is_white_space(#[trigger] s[k])
            &&& forall|k: int| j <= k < s.len() ==> is_white_space(#[trigger] s[k])
            &&& i < j ==> !is_white_space(s[i]) && !is_white_space(s[j - 1])
        }
}

proof fn lemma_trim_start(s: Seq<char>) -> (i: int)
    ensures
        0 <= i <= s.len(),
        trim_start(s) == s.skip(i),
        forall|k: int| 0 <= k < i ==> is_white_space(#[trigger] s[k]),
        i < s.len() ==> !is_white_space(s[i]),
    decreases s.len(),
{
    if s.len() > 0 && is_white_space(s[0]) {
        let rest = s.drop_first();
        let i = lemma_trim_start(rest);
        assert forall|k: int| 0 <= k < i + 1 implies is_white_space(#[trigger] s[k]) by {
            if k > 0 {
                assert(s[k] == rest[k - 1]);
            }
        }
        assert(rest.skip(i) =~= s.skip(i + 1));
        i + 1
    } else {
        assert(s.skip(0) =~= s);
        0
    }
}

proof fn lemma_trim_end(s: Seq<char>) -> (j: int)
    ensures
        0 <= j <= s.len(),
        trim_end(s) == s.take(j),
        forall|k: int| j <= k < s.len() ==> is_white_space(#[trigger] s[k]),
        j > 0 ==> !is_white_space(s[j - 1]),
    decreases s.len(),
{
    if s.len() > 0 && is_white_space(s.last()) {
        let front = s.drop_last();
        let j = lemma_trim_end(front);
        assert forall|k: int| j <= k < s.len() implies is_white_space(#[trigger] s[k]) by {
            if k < front.len() {
                assert(s[k] == front[k]);
            }
        }
        assert(front.take(j) =~= s.take(j));
        j
    } else {
        assert(s.take(s.len() as int) =~= s);
        s.len() as int
    }
}

proof fn lemma_trim(s: Seq<char>)
    ensures
        is_trimmed(trim(s), s),
{
    let i = lemma_trim_start(s);
    let rest = s.skip(i);
    let n = lemma_trim_end(rest);
    let j = i + n;
    assert(rest.take(n) =~= s.subrange(i, j));
    assert forall|k: int| j <= k < s.len() implies is_white_space(#[trigger] s[k]) by {
        assert(s[k] == rest[k - i]);
    }
    if i < j {
        assert(s[j - 1] == rest[n - 1]);
    }
}

proof fn lemma_found(s: Seq<char>, c: char)
    ensures
        0 <= find(s, c) <= s.len(),
        find(s, c) < s.len() ==> s[find(s, c)] == c,
        forall|k: int| 0 <= k < find(s, c) ==> #[trigger] s[k] != c,
    decreases s.len(),
{
    if s.len() > 0 && s[0] != c {
        let rest = s.drop_first();
        lemma_found(rest, c);
        assert forall|k: int| 0 <= k < find(s, c) implies #[trigger] s[k] != c by {
            if k > 0 {
                assert(s[k] == rest[k - 1]);
            }
        }
    }
}

/// A text is split at the first occurrence of a character, and white space is taken away at
/// the ends of both parts; it is not split exactly if the character does not occur.
pub proof fn law_split(s: &str, c: char, r: Option<(String, String)>)
    requires
        split_at_char.ensures((s, c), r),
    ensures
        r is Some <==> s@.contains(c),
        r matches Some((before, after)) ==> exists|at: int|
            {
                &&& 0 <= at < s@.len()
                &&& #[trigger] s@[at] == c
                &&& forall|k: int| 0 <= k < at ==> #[trigger] s@[k] != c
                &&& is_trimmed(before@, s@.take(at))
                &&& is_trimmed(after@, s@.skip(at + 1))
            },
{
    let at = find(s@, c);
    lemma_found(s@, c);
    if at < s@.len() {
        assert(s@.contains(s@[at]));
        lemma_trim(s@.take(at));
        lemma_trim(s@.skip(at + 1));
    } else {
        assert forall|k: int| 0 <= k < s@.len() implies #[trigger] s@[k] != c by {}
    }
}

/// The sides of a ratio are split at its first slash.
pub proof fn law_ratio(s: &str, r: Option<(String, String)>, split: Option<(String, String)>)
    requires
        rational_parts.ensures((s,), r),
        split_at_char.ensures((s, '/'), split),
    ensures
        r is Some <==> split is Some,
        r matches Some((a, b)) ==> (split matches Some((x, y)) && a@ == x@ && b@ == y@),
{
}

/// The lines of a text that is made of two with a line feed between them are the lines of
/// both.
proof fn lemma_lines_join(a: Seq<char>, b: Seq<char>)
    ensures
        lines(a.push('\n') + b) == lines(a) + lines(b),
    decreases a.len(),
{
    let all = a.push('\n') + b;
    let at = find(a, '\n');
    lemma_found(a, '\n');
    assert forall|k: int| 0 <= k < at implies #[trigger] all[k] != '\n' by {
        assert(all[k] == a[k]);
    }
    assert(all[at] == '\n');
    lemma_find(all, '\n', at);
    assert(all.take(at) =~= a.take(at));
    if at < a.len() {
        let rest = a.skip(at + 1);
        assert(all.skip(at + 1) =~= rest.push('\n') + b);
        lemma_lines_join(rest, b);
        assert(lines(all) =~= lines(a) + lines(b));
    } else {
        assert(a.take(at) =~= a);
        assert(all.skip(at + 1) =~= b);
        assert(lines(all) =~= lines(a) + lines(b));
    }
}

/// A line without a line feed is one line.
proof fn lemma_one_line(line: Seq<char>)
    requires
        !line.contains('\n'),
    ensures
        lines(line) == seq![line],
{
    assert forall|k: int| 0 <= k < line.len() implies #[trigger] line[k] != '\n' by {
        assert(line.contains(line[k]));
    }
    lemma_find(line, '\n', line.len() as int);
}

/// A line at the end of a text that gives a key its value gives that value, whatever stands
/// before it. A line for another key, or without an equals sign, changes nothing.
pub proof fn law_last_line_counts(
    front: &str,
    text: &str,
    key: &str,
    name: Seq<char>,
    value: Seq<char>,
    before: Option<String>,
    r: Option<String>,
)
    requires
        is_plain(name, value),
        text@ == front@.push('\n') + (name.push('=') + value),
        value_of.ensures((front, key), before),
        value_of.ensures((text, key), r),
    ensures
        name == key@ ==> (r matches Some(v) && v@ == value),
        name != key@ ==> (r is Some <==> before is Some) && (r matches Some(v) ==> v@
            == before->0@),
{
    let line = name.push('=') + value;
    lemma_entry(name, value);
    assert(!line.contains('\n')) by {
        if line.contains('\n') {
            let k = choose|k: int| 0 <= k < line.len() && line[k] == '\n';
            if k < name.len() {
                assert(name.contains(name[k]));
            } else if k > name.len() {
                assert(value.contains(value[k - name.len() - 1]));
            }
        }
    }
    lemma_one_line(line);
    lemma_lines_join(front@, line);
    let list = lines(front@) + seq![line];
    assert(list.drop_last() =~= lines(front@));
    assert(list.last() == line);
    assert(last_value(list, key@) == if name == key@ {
        Some(value)
    } else {
        last_value(lines(front@), key@)
    });
}

/// Of two parts of a text, with a line feed between them, the second gives a key its value
/// if it gives it one; else the first does.
pub proof fn law_later_part_counts(
    front: &str,
    rest: &str,
    text: &str,
    key: &str,
    before: Option<String>,
    later: Option<String>,
    r: Option<String>,
)
    requires
        text@ == front@.push('\n') + rest@,
        value_of.ensures((front, key), before),
        value_of.ensures((rest, key), later),
        value_of.ensures((text, key), r),
    ensures
        r is Some <==> before is Some || later is Some,
        later matches Some(w) ==> (r matches Some(v) && v@ == w@),
        later is None ==> (r matches Some(v) ==> v@ == before->0@),
{
    lemma_lines_join(front@, rest@);
    lemma_last_value_join(lines(front@), lines(rest@), key@);
}

proof fn lemma_last_value_join(a: Seq<Seq<char>>, b: Seq<Seq<char>>, key: Seq<char>)
    ensures
        last_value(a + b, key) == if last_value(b, key) is Some {
            last_value(b, key)
        } else {
            last_value(a, key)
        },
    decreases b.len(),
{
    if b.len() > 0 {
        assert((a + b).drop_last() =~= a + b.drop_last());
        assert((a + b).last() == b.last());
        lemma_last_value_join(a, b.drop_last(), key);
    } else {
        assert(a + b =~= a);
    }
}

/// A single line gives a value to the key before its first equals sign alone: what is
/// behind the sign, both without the white space at their ends.
pub proof fn law_line_is_split(
    line: &str,
    key: &str,
    r: Option<String>,
    split: Option<(String, String)>,
)
    requires
        !line@.contains('\n'),
        value_of.ensures((line, key), r),
        split_at_char.ensures((line, '='), split),
    ensures
        r is Some <==> (split matches Some((name, _)) && name@ == key@),
        r matches Some(v) ==> (split matches Some((_, value)) && v@ == value@),
{
    lemma_one_line(line@);
    let list = seq![line@];
    assert(list.drop_last() =~= seq![]);
    assert(last_value(list.drop_last(), key@) is None);
    assert(list.last() == line@);
}

/// A line without an equals sign at the end of a text changes nothing.
pub proof fn law_noise_is_ignored(
    front: &str,
    text: &str,
    key: &str,
    line: Seq<char>,
    before: Option<String>,
    r: Option<String>,
)
    requires
        !line.contains('='),
        !line.contains('\n'),
        text@ == front@.push('\n') + line,
        value_of.ensures((front, key), before),
        value_of.ensures((text, key), r),
    ensures
        r is Some <==> before is Some,
        r matches Some(v) ==> v@ == before->0@,
{
    lemma_one_line(line);
    lemma_lines_join(front@, line);
    assert forall|k: int| 0 <= k < line.len() implies #[trigger] line[k] != '=' by {
        assert(line.contains(line[k]));
    }
    lemma_find(line, '=', line.len() as int);
    let list = lines(front@) + seq![line];
    assert(list.drop_last() =~= lines(front@));
    assert(list.last() == line);
}

/// A text gives a key the value on its line, whatever other keys have lines and in whatever
/// order; it gives none to a key without a line.
pub proof fn law_values_are_found(
    entries: Seq<(Seq<char>, Seq<char>)>,
    text: &str,
    key: &str,
    r: Option<String>,
    i: int,
)
    requires
        are_entries(entries),
        text@ == report_text(entries),
        value_of.ensures((text, key), r),
    ensures
        0 <= i < entries.len() && entries[i].0 == key@ ==> (r matches Some(v) && v@ == entries[i].1),
        (forall|j: int| 0 <= j < entries.len() ==> (#[trigger] entries[j]).0 != key@) ==> r is None,
{
    if 0 <= i < entries.len() && entries[i].0 == key@ {
        law_report_reads_back(entries, i);
    }
    if forall|j: int| 0 <= j < entries.len() ==> (#[trigger] entries[j]).0 != key@ {
        lemma_report_lines(entries);
        let list = lines(report_text(entries));
        assert forall|j: int| 0 <= j < list.len() implies (split_trimmed(#[trigger] list[j], '=')
            matches Some((k, _)) ==> k != key@) by {
            if j < entries.len() {
                assert(is_plain(entries[j].0, entries[j].1));
                lemma_entry(entries[j].0, entries[j].1);
            } else {
                lemma_find(list[j], '=', 0);
            }
        }
        lemma_no_value(list, key@);
    }
}

proof fn lemma_no_value(list: Seq<Seq<char>>, key: Seq<char>)
    requires
        forall|j: int|
            0 <= j < list.len() ==> (split_trimmed(#[trigger] list[j], '=') matches Some((k, _))
                ==> k != key),
    ensures
        last_value(list, key) is None,
    decreases list.len(),
{
    if list.len() > 0 {
        let front = list.drop_last();
        assert(list[list.len() - 1] == list.last());
        assert forall|j: int| 0 <= j < front.len() implies (split_trimmed(#[trigger] front[j], '=')
            matches Some((k, _)) ==> k != key) by {
            assert(front[j] == list[j]);
        }
        lemma_no_value(front, key);
    }
}

/// A report is read by the values of its keys: the size by `width` and `height`, and the
/// frame rates by `avg_frame_rate` and `r_frame_rate`. Without a width that is a number it
/// is refused for that, and else without a height that is one.
pub proof fn law_report(
    text: &str,
    r: Result<StreamFields, ProbeError>,
    width: Option<String>,
    height: Option<String>,
    avg: Option<String>,
    nominal: Option<String>,
    w: &str,
    h: &str,
    wn: Option<u32>,
    hn: Option<u32>,
)
    requires
        read_report.ensures((text,), r),
        value_of.ensures((text, "width"), width),
        value_of.ensures((text, "height"), height),
        value_of.ensures((text, "avg_frame_rate"), avg),
        value_of.ensures((text, "r_frame_rate"), nominal),
        width matches Some(s) ==> w@ == s@,
        height matches Some(s) ==> h@ == s@,
        parse_u32.ensures((w,), wn),
        parse_u32.ensures((h,), hn),
    ensures
        width is None || wn is None ==> (r matches Err(e) && e == ProbeError::Width),
        width is Some && wn is Some && (height is None || hn is None) ==> (r matches Err(e) && e
            == ProbeError::Height),
        width is Some && wn is Some && height is Some && hn is Some ==> (r matches Ok(f) && {
            &&& f.width == wn->0
            &&& f.height == hn->0
            &&& f.avg_frame_rate is Some <==> avg is Some
            &&& f.avg_frame_rate matches Some(v) ==> v@ == avg->0@
            &&& f.r_frame_rate is Some <==> nominal is Some
            &&& f.r_frame_rate matches Some(v) ==> v@ == nominal->0@
        }),
{
}

/// What the probing program wrote is read as a report if it was successful, and not
/// otherwise.
pub proof fn law_probe(
    success: bool,
    output: Vec<u8>,
    text: String,
    s: &str,
    report: Result<StreamFields, ProbeError>,
    r: Result<StreamFields, ProbeError>,
)
    requires
        probe_metadata.ensures((success, &output), r),
        output_text.ensures((&output,), text),
        s@ == text@,
        read_report.ensures((s,), report),
    ensures
        !success ==> (r matches Err(e) && e == ProbeError::Failed),
        success ==> (r is Ok <==> report is Ok),
        success ==> (r matches Err(e) ==> report matches Err(f) && e == f),
        success ==> (r matches Ok(a) ==> (report matches Ok(b) && {
            &&& a.width == b.width
            &&& a.height == b.height
            &&& a.avg_frame_rate is Some <==> b.avg_frame_rate is Some
            &&& a.avg_frame_rate matches Some(v) ==> v@ == b.avg_frame_rate->0@
            &&& a.r_frame_rate is Some <==> b.r_frame_rate is Some
            &&& a.r_frame_rate matches Some(v) ==> v@ == b.r_frame_rate->0@
        })),
{
}

/// The average frame rate is taken if it is there and usable, else the nominal one if that
/// is; else there is none.
pub proof fn law_frame_rate(
    fields: StreamFields,
    avg_usable: bool,
    r_usable: bool,
    r: Result<String, ProbeError>,
)
    requires
        choose_frame_rate.ensures((&fields, avg_usable, r_usable), r),
    ensures
        avg_usable ==> (fields.avg_frame_rate matches Some(a) ==> r matches Ok(v) && v@ == a@),
        !avg_usable || fields.avg_frame_rate is None ==> r_usable ==> (
        fields.r_frame_rate matches Some(n) ==> r matches Ok(v) && v@ == n@),
        (!avg_usable || fields.avg_frame_rate is None) && (!r_usable || fields.r_frame_rate is None)
            ==> (r matches Err(e) && e == ProbeError::FrameRate),
{
}

/// Messages tell of a fallback to software by four phrases.
pub proof fn law_fallback_phrases(
    messages: &str,
    setup: bool,
    start: bool,
    device: bool,
    creating: bool,
    r: bool,
)
    requires
        reports_fallback.ensures((messages,), r),
        contains.ensures((messages, "failed setup for format"), setup),
        contains.ensures((messages, "hwaccel initialization returned error"), start),
        contains.ensures((messages, "device creation failed"), device),
        contains.ensures((messages, "error creating a"), creating),
    ensures
        r <==> setup || start || device || creating,
{
}

/// Whether `phrase`, of lower case letters, stands in a text from `i` on, in letters of
/// either case.
pub open spec fn stands_in_any_case(text: Seq<char>, phrase: Seq<char>, i: int) -> bool {
    &&& 0 <= i <= text.len() - phrase.len()
    &&& forall|k: int|
        0 <= k < phrase.len() ==> {
            ||| #[trigger] text[i + k] == phrase[k]
            ||| 65 <= text[i + k] as int <= 90 && text[i + k] as int + 32 == phrase[k] as int
        }
}

/// Whether a phrase is one that tells of a fallback to software.
pub open spec fn tells_of_fallback(phrase: Seq<char>) -> bool {
    ||| phrase == "failed setup for format"@
    ||| phrase == "hwaccel initialization returned error"@
    ||| phrase == "device creation failed"@
    ||| phrase == "error creating a"@
}

/// A hardware decoder works exactly if its test run was successful and its messages, in
/// letters of either case, tell of no fallback. A run that took too long shows nothing.
pub proof fn law_decoder_works(
    success: bool,
    messages: String,
    r: bool,
    late: bool,
    phrase: Seq<char>,
    i: int,
)
    requires
        test_decode.ensures((&Some((success, messages)),), r),
        test_decode.ensures((&None::<(bool, String)>,), late),
        forall|k: int| 0 <= k < messages@.len() ==> ((#[trigger] messages@[k]) as int) < 128,
    ensures
        !late,
        r ==> success,
        r && tells_of_fallback(phrase) ==> !stands_in_any_case(messages@, phrase, i),
        success && !r ==> exists|told: Seq<char>, at: int|
            tells_of_fallback(told) && #[trigger] stands_in_any_case(messages@, told, at),
{
    reveal_strlit("failed setup for format");
    reveal_strlit("hwaccel initialization returned error");
    reveal_strlit("device creation failed");
    reveal_strlit("error creating a");
    let lower = ascii_lowercase_text(messages@);
    assert(is_ascii_text(messages@));
    if tells_of_fallback(phrase) {
        assert forall|k: int| 0 <= k < phrase.len() implies !(65 <= (#[trigger] phrase[k]) as int
            <= 90) by {}
        lemma_any_case(messages@, phrase, i);
    }
    if success && !r {
        let told = if contains_text(lower, "failed setup for format"@) {
            "failed setup for format"@
        } else if contains_text(lower, "hwaccel initialization returned error"@) {
            "hwaccel initialization returned error"@
        } else if contains_text(lower, "device creation failed"@) {
            "device creation failed"@
        } else {
            "error creating a"@
        };
        let at = choose|at: int| #[trigger] stands_at(lower, told, at);
        assert forall|k: int| 0 <= k < told.len() implies !(65 <= (#[trigger] told[k]) as int
            <= 90) by {}
        lemma_any_case(messages@, told, at);
        assert(stands_in_any_case(messages@, told, at));
    }
}

/// The same of messages in any script: what counts is whether they tell of a fallback in
/// lower case.
pub proof fn law_decoder_works_in_any_script(
    success: bool,
    messages: String,
    lower: &str,
    tells: bool,
    r: bool,
)
    requires
        test_decode.ensures((&Some((success, messages)),), r),
        lower@ == lowercase(messages@),
        reports_fallback.ensures((lower,), tells),
    ensures
        r <==> success && !tells,
{
}

/// A phrase without capitals stands in a text in letters of either case exactly if it
/// stands in the text in lower case.
proof fn lemma_any_case(text: Seq<char>, phrase: Seq<char>, i: int)
    requires
        forall|k: int| 0 <= k < phrase.len() ==> !(65 <= (#[trigger] phrase[k]) as int <= 90),
    ensures
        stands_in_any_case(text, phrase, i) <==> stands_at(ascii_lowercase_text(text), phrase, i),
{
    let lower = ascii_lowercase_text(text);
    if stands_in_any_case(text, phrase, i) {
        assert forall|k: int| 0 <= k < phrase.len() implies lower[i + k] == phrase[k] by {
            assert(text[i + k] == phrase[k] || text[i + k] as int + 32 == phrase[k] as int);
        }
        assert(lower.subrange(i, i + phrase.len()) =~= phrase);
    }
    if stands_at(lower, phrase, i) {
        assert forall|k: int| 0 <= k < phrase.len() implies ({
            ||| #[trigger] text[i + k] == phrase[k]
            ||| 65 <= text[i + k] as int <= 90 && text[i + k] as int + 32 == phrase[k] as int
        }) by {
            assert(lower.subrange(i, i + phrase.len())[k] == phrase[k]);
            assert(lower[i + k] == phrase[k]);
        }
    }
}

/// A text that a program wrote in UTF-8 is read as it is.
pub proof fn law_text_is_read_as_written(s: Seq<char>, bytes: Vec<u8>, r: String)
    requires
        output_text.ensures((&bytes,), r),
        bytes@ == encode_utf8(s),
    ensures
        r@ == s,
{
    vstd::utf8::encode_utf8_valid_utf8(s);
    vstd::utf8::encode_utf8_decode_utf8(s);
}

/// What a user is told of a video that cannot be read: what is lacking, and the file.
pub proof fn law_probe_messages(e: ProbeError, file: &str, r: String)
    requires
        ProbeError::message.ensures((e, file), r),
    ensures
        e is Failed ==> r@ == "ffprobe failed to read "@ + file@,
        e is Width ==> r@ == "ffprobe reported no video width for "@ + file@,
        e is Height ==> r@ == "ffprobe reported no video height for "@ + file@,
        e is FrameRate ==> r@ == "ffprobe reported no usable frame rate for "@ + file@,
{
}

/// What a user is told of a frame of the wrong size: how many bytes it has, how many it
/// should have, and the size of the video.
pub proof fn law_frame_size_message(
    got: usize,
    expected: usize,
    width: u32,
    height: u32,
    status: &str,
    r: String,
    has: String,
    wants: String,
    w: String,
    h: String,
)
    requires
        EncodeError::message.ensures(
            (&EncodeError::FrameSize { got, expected, width, height }, status),
            r,
        ),
        to_decimal.ensures((got as u64,), has),
        to_decimal.ensures((expected as u64,), wants),
        to_decimal.ensures((width as u64,), w),
        to_decimal.ensures((height as u64,), h),
    ensures
        r@ == "frame size mismatch: got "@ + has@ + " bytes, expected "@ + wants@ + " ("@ + w@
            + "x"@ + h@ + "x3)"@,
{
}

/// What a user is told of a failed run, with its status and its file, and of a frame that
/// comes too late.
pub proof fn law_encode_messages(output: String, status: &str, failed: String, late: String)
    requires
        EncodeError::message.ensures((&EncodeError::Failed { output }, status), failed),
        EncodeError::message.ensures((&EncodeError::Finished, status), late),
    ensures
        failed@ == "ffmpeg exited with status "@ + status@ + " while writing "@ + output@,
        late@ == "encoder already finished"@,
{
}

/// Strings are copied, joined, compared and cut by their characters.
pub proof fn law_strings(
    a: &str,
    b: &str,
    copy: String,
    both: String,
    equal: bool,
    chars: Vec<char>,
    from: usize,
    to: usize,
    part: String,
    i: int,
)
    requires
        owned.ensures((a,), copy),
        joined.ensures((a, b), both),
        same.ensures((&copy, b), equal),
        chars_of.ensures((a,), chars),
        text_of.ensures((&chars, from, to), part),
        from <= to <= a@.len(),
    ensures
        copy@.len() == a@.len(),
        both@.len() == a@.len() + b@.len(),
        0 <= i < a@.len() ==> copy@[i] == a@[i] && both@[i] == a@[i],
        0 <= i < b@.len() ==> both@[a@.len() + i] == b@[i],
        equal <==> a@ == b@,
        part@.len() == to - from,
        0 <= i < to - from ==> part@[i] == a@[from + i],
{
    assert(copy@ =~= a@);
}

} // verus!
