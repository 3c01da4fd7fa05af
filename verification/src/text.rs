//! Text primitives shared by provider names, prompt ids, and settings.

use vstd::prelude::*;

verus! {

/// Unicode `White_Space` code points.
pub open spec fn white_space(c: char) -> bool {
    let n = c as u32;
    ||| 9 <= n <= 13
    ||| n == 32
    ||| n == 0x85
    ||| n == 0xa0
    ||| n == 0x1680
    ||| 0x2000 <= n <= 0x200a
    ||| n == 0x2028
    ||| n == 0x2029
    ||| n == 0x202f
    ||| n == 0x205f
    ||| n == 0x3000
}

/// Reports whether `c` has the Unicode `White_Space` property.
pub fn is_white_space(c: char) -> (res: bool)
    ensures
        res == white_space(c),
{
    let n: u32 = c as u32;
    (9 <= n && n <= 13) || n == 32 || n == 0x85 || n == 0xa0 || n == 0x1680 || (0x2000 <= n && n
        <= 0x200a) || n == 0x2028 || n == 0x2029 || n == 0x202f || n == 0x205f || n == 0x3000
}

/// `a` and `b` first differ at `i`, where `a` has ended or holds the smaller scalar value.
pub open spec fn differs_below_at(a: Seq<char>, b: Seq<char>, i: int) -> bool {
    &&& 0 <= i <= a.len()
    &&& i < b.len()
    &&& a.take(i) == b.take(i)
    &&& i == a.len() || (a[i] as int) < (b[i] as int)
}

/// Strict lexicographic order by Unicode scalar value, which is also the order of the UTF-8
/// encodings.
pub open spec fn text_less(a: Seq<char>, b: Seq<char>) -> bool {
    exists|i: int| #[trigger] differs_below_at(a, b, i)
}

/// The order is irreflexive.
pub proof fn text_less_irreflexive(a: Seq<char>)
    ensures
        !text_less(a, a),
{
}

/// The order is transitive.
pub proof fn text_less_transitive(a: Seq<char>, b: Seq<char>, c: Seq<char>)
    requires
        text_less(a, b),
        text_less(b, c),
    ensures
        text_less(a, c),
{
    let i = choose|i: int| differs_below_at(a, b, i);
    let j = choose|j: int| differs_below_at(b, c, j);
    let k = if i <= j {
        i
    } else {
        j
    };
    assert(a.take(k) =~= a.take(i).take(k));
    assert(b.take(k) =~= b.take(i).take(k));
    assert(b.take(k) =~= b.take(j).take(k));
    assert(c.take(k) =~= c.take(j).take(k));
    if i < j {
        assert(b.take(j)[i] == c.take(j)[i]);
    } else if j < i {
        assert(a.take(i)[j] == b.take(i)[j]);
    }
    assert(differs_below_at(a, c, k));
}

/// Of two different texts, one precedes the other.
pub proof fn text_less_total(a: Seq<char>, b: Seq<char>)
    ensures
        a == b || text_less(a, b) || text_less(b, a),
    decreases a.len(),
{
    if a.len() == 0 {
        if b.len() > 0 {
            assert(a.take(0) =~= b.take(0));
            assert(differs_below_at(a, b, 0));
        } else {
            assert(a =~= b);
        }
    } else if b.len() == 0 {
        assert(a.take(0) =~= b.take(0));
        assert(differs_below_at(b, a, 0));
    } else {
        let x = a.drop_last();
        text_less_total(x, b);
        if x == b {
            assert(b.take(b.len() as int) =~= a.take(b.len() as int));
            assert(differs_below_at(b, a, b.len() as int));
        } else if text_less(x, b) {
            let i = choose|i: int| differs_below_at(x, b, i);
            if i < x.len() {
                assert(a.take(i) =~= x.take(i));
                assert(differs_below_at(a, b, i));
            } else {
                assert(a.take(i) =~= x.take(i));
                if (a[i] as int) < (b[i] as int) {
                    assert(differs_below_at(a, b, i));
                } else if (b[i] as int) < (a[i] as int) {
                    assert(b.take(i) == a.take(i));
                    assert(differs_below_at(b, a, i));
                } else {
                    assert(a.take(i + 1) =~= a);
                    assert(b.take(i + 1) =~= b.take(i).push(b[i]));
                    assert(a =~= a.take(i).push(a[i]));
                    if b.len() == i + 1 {
                        assert(a =~= b);
                    } else {
                        assert(a.take(i + 1) =~= b.take(i + 1));
                        assert(differs_below_at(a, b, i + 1));
                    }
                }
            }
        } else {
            let i = choose|i: int| differs_below_at(b, x, i);
            assert(a.take(i) =~= x.take(i));
            assert(differs_below_at(b, a, i));
        }
    }
}

/// Reports whether `a` precedes `b` in scalar-value order.
pub fn is_text_less(a: &str, b: &str) -> (res: bool)
    ensures
        res == text_less(a@, b@),
        !res && a@ != b@ ==> text_less(b@, a@),
{
    let n: usize = a.unicode_len();
    let m: usize = b.unicode_len();
    let mut i: usize = 0;
    while i < n && i < m
        invariant
            n == a@.len(),
            m == b@.len(),
            i <= n,
            i <= m,
            a@.take(i as int) == b@.take(i as int),
        decreases n - i,
    {
        let x: char = a.get_char(i);
        let y: char = b.get_char(i);
        if x != y {
            let below: bool = (x as u32) < (y as u32);
            proof {
                assert forall|k: int| #[trigger] differs_below_at(a@, b@, k) implies k == i by {
                    if k < i {
                        assert(a@.take(i as int)[k] == b@.take(i as int)[k]);
                    } else if k > i {
                        assert(a@.take(k)[i as int] == b@.take(k)[i as int]);
                    }
                }
                if below {
                    assert(differs_below_at(a@, b@, i as int));
                } else {
                    assert(differs_below_at(b@, a@, i as int));
                }
            }
            return below;
        }
        proof {
            assert(a@.take(i + 1) =~= a@.take(i as int).push(a@[i as int]));
            assert(b@.take(i + 1) =~= b@.take(i as int).push(b@[i as int]));
        }
        i = i + 1;
    }
    proof {
        if n < m {
            assert(differs_below_at(a@, b@, i as int));
        } else {
            assert forall|k: int| #[trigger] differs_below_at(a@, b@, k) implies false by {
                assert(a@.take(i as int)[k] == b@.take(i as int)[k]);
            }
            if m < n {
                assert(differs_below_at(b@, a@, i as int));
            } else {
                assert(a@ =~= a@.take(i as int));
                assert(b@ =~= b@.take(i as int));
            }
        }
    }
    n < m
}

/// Compares two texts by content.
pub fn same_text(a: &str, b: &str) -> (res: bool)
    ensures
        res == (a@ == b@),
{
    let n: usize = a.unicode_len();
    if n != b.unicode_len() {
        return false;
    }
    let mut i: usize = 0;
    while i < n
        invariant
            n == a@.len(),
            n == b@.len(),
            i <= n,
            forall|j: int| 0 <= j < i ==> a@[j] == b@[j],
        decreases n - i,
    {
        if a.get_char(i) != b.get_char(i) {
            return false;
        }
        i = i + 1;
    }
    assert(a@ =~= b@);
    true
}

/// Compares two optional texts by content.
pub fn same_optional_text(a: &Option<String>, b: &Option<String>) -> (res: bool)
    ensures
        res == (optional_text(*a) == optional_text(*b)),
{
    match (a, b) {
        (Some(x), Some(y)) => *x == *y,
        (None, None) => true,
        _ => false,
    }
}

/// The content of an optional text.
pub open spec fn optional_text(a: Option<String>) -> Option<Seq<char>> {
    match a {
        Some(x) => Some(x@),
        None => None,
    }
}

/// Clones an optional text.
pub fn clone_optional_text(a: &Option<String>) -> (res: Option<String>)
    ensures
        res == *a,
{
    match a {
        Some(x) => Some(x.clone()),
        None => None,
    }
}

/// Only white space, or nothing at all.
pub open spec fn blank(text: Seq<char>) -> bool {
    forall|i: int| 0 <= i < text.len() ==> white_space(#[trigger] text[i])
}

/// Reports whether a text is empty once trimmed.
pub fn is_blank(text: &str) -> (res: bool)
    ensures
        res == blank(text@),
{
    let n: usize = text.unicode_len();
    let mut i: usize = 0;
    while i < n
        invariant
            n == text@.len(),
            i <= n,
            forall|j: int| 0 <= j < i ==> white_space(#[trigger] text@[j]),
        decreases n - i,
    {
        if !is_white_space(text.get_char(i)) {
            return false;
        }
        i = i + 1;
    }
    true
}

/// The decimal digit `d`.
pub open spec fn digit(d: nat) -> char {
    (48 + d) as char
}

/// The decimal numeral of `n`.
pub open spec fn decimal(n: nat) -> Seq<char>
    decreases n,
{
    if n < 10 {
        seq![digit(n)]
    } else {
        decimal(n / 10).push(digit(n % 10))
    }
}

fn digit_text(d: u64) -> (res: &'static str)
    requires
        d < 10,
    ensures
        res@ == seq![digit(d as nat)],
{
    proof {
        reveal_strlit("0");
        reveal_strlit("1");
        reveal_strlit("2");
        reveal_strlit("3");
        reveal_strlit("4");
        reveal_strlit("5");
        reveal_strlit("6");
        reveal_strlit("7");
        reveal_strlit("8");
        reveal_strlit("9");
    }
    let res = match d {
        0 => "0",
        1 => "1",
        2 => "2",
        3 => "3",
        4 => "4",
        5 => "5",
        6 => "6",
        7 => "7",
        8 => "8",
        _ => "9",
    };
    assert(res@ =~= seq![digit(d as nat)]);
    res
}

/// Renders `n` in decimal.
pub fn decimal_text(n: u64) -> (res: String)
    ensures
        res@ == decimal(n as nat),
    decreases n,
{
    if n < 10 {
        digit_text(n).to_owned()
    } else {
        let mut res = decimal_text(n / 10);
        res.append(digit_text(n % 10));
        assert(res@ =~= decimal(n as nat));
        res
    }
}

/// `c` is an ASCII decimal digit.
pub open spec fn is_decimal(c: char) -> bool {
    48 <= c as int <= 57
}

/// Every character is an ASCII decimal digit.
pub open spec fn all_decimal(text: Seq<char>) -> bool {
    forall|i: int| 0 <= i < text.len() ==> is_decimal(#[trigger] text[i])
}

/// The value of a decimal numeral.
pub open spec fn decimal_value(text: Seq<char>) -> nat
    decreases text.len(),
{
    if text.len() == 0 {
        0
    } else {
        (10 * decimal_value(text.drop_last()) + (text.last() as int - 48)) as nat
    }
}

/// The digits of an unsigned numeral, after an optional plus sign.
pub open spec fn unsigned_digits(text: Seq<char>) -> Seq<char> {
    if text.len() > 0 && text[0] == '+' {
        text.skip(1)
    } else {
        text
    }
}

/// The count that a text names: digits after an optional plus sign, within the machine's range.
pub open spec fn parsed_count(text: Seq<char>) -> Option<nat> {
    let digits = unsigned_digits(text);
    if digits.len() > 0 && all_decimal(digits) && decimal_value(digits) <= usize::MAX {
        Some(decimal_value(digits))
    } else {
        None
    }
}

proof fn decimal_value_grows(text: Seq<char>, i: int)
    requires
        all_decimal(text),
        0 <= i <= text.len(),
    ensures
        decimal_value(text.take(i)) <= decimal_value(text),
    decreases text.len(),
{
    if i == text.len() {
        assert(text.take(i) =~= text);
    } else {
        let rest = text.drop_last();
        assert(all_decimal(rest)) by {
            assert forall|j: int| 0 <= j < rest.len() implies is_decimal(#[trigger] rest[j]) by {
                assert(rest[j] == text[j]);
            }
        }
        decimal_value_grows(rest, i);
        assert(rest.take(i) =~= text.take(i));
        assert(is_decimal(text[text.len() - 1]));
    }
}

/// Parses an unsigned count.
pub fn parse_count(text: &str) -> (res: Option<usize>)
    ensures
        match (res, parsed_count(text@)) {
            (Some(n), Some(expected)) => n == expected,
            (None, None) => true,
            _ => false,
        },
{
    let n: usize = text.unicode_len();
    let start: usize = if n > 0 && text.get_char(0) == '+' {
        1
    } else {
        0
    };
    let ghost digits = unsigned_digits(text@);
    assert(digits =~= text@.skip(start as int));
    if start == n {
        return None;
    }
    let mut value: usize = 0;
    let mut i: usize = start;
    assert(digits.take(0) =~= Seq::<char>::empty());
    while i < n
        invariant
            n == text@.len(),
            start <= i <= n,
            digits == text@.skip(start as int),
            digits == unsigned_digits(text@),
            value == decimal_value(digits.take(i - start)),
            forall|j: int| 0 <= j < i - start ==> is_decimal(#[trigger] digits[j]),
        decreases n - i,
    {
        let c: char = text.get_char(i);
        let ghost k = i - start;
        assert(c == digits[k]);
        let code: u32 = c as u32;
        if code < 48 || 57 < code {
            assert(!is_decimal(digits[k]));
            return None;
        }
        let d: usize = (code - 48) as usize;
        proof {
            assert(digits.take(k + 1).drop_last() =~= digits.take(k));
            assert(digits.take(k + 1).last() == c);
            assert(decimal_value(digits.take(k + 1)) == 10 * value + d);
            if all_decimal(digits) {
                decimal_value_grows(digits, k + 1);
            }
        }
        if value > usize::MAX / 10 {
            assert(10 * value > usize::MAX);
            return None;
        }
        if value * 10 > usize::MAX - d {
            return None;
        }
        value = value * 10 + d;
        i = i + 1;
    }
    assert(digits.take(n - start) =~= digits);
    Some(value)
}

/// `text` without leading white space.
pub open spec fn trimmed_start(text: Seq<char>) -> Seq<char>
    decreases text.len(),
{
    if text.len() > 0 && white_space(text[0]) {
        trimmed_start(text.skip(1))
    } else {
        text
    }
}

/// `text` without trailing white space.
pub open spec fn trimmed_end(text: Seq<char>) -> Seq<char>
    decreases text.len(),
{
    if text.len() > 0 && white_space(text.last()) {
        trimmed_end(text.drop_last())
    } else {
        text
    }
}

/// `text` without leading and trailing white space.
pub open spec fn trimmed(text: Seq<char>) -> Seq<char> {
    trimmed_end(trimmed_start(text))
}

/// Copies a text without leading and trailing white space.
pub fn trim_text(text: &str) -> (res: String)
    ensures
        res@ == trimmed(text@),
{
    let n: usize = text.unicode_len();
    let mut start: usize = 0;
    assert(text@.skip(0) =~= text@);
    while start < n && is_white_space(text.get_char(start))
        invariant
            n == text@.len(),
            start <= n,
            trimmed_start(text@) == trimmed_start(text@.skip(start as int)),
        decreases n - start,
    {
        assert(text@.skip(start as int).skip(1) =~= text@.skip(start + 1));
        start = start + 1;
    }
    let ghost body = text@.skip(start as int);
    assert(trimmed_start(text@) == body);
    let mut end: usize = n;
    assert(body =~= text@.subrange(start as int, end as int));
    while start < end && is_white_space(text.get_char(end - 1))
        invariant
            n == text@.len(),
            start <= end <= n,
            trimmed_end(body) == trimmed_end(text@.subrange(start as int, end as int)),
        decreases end,
    {
        let ghost seen = text@.subrange(start as int, end as int);
        assert(seen.last() == text@[end - 1]);
        assert(seen.drop_last() =~= text@.subrange(start as int, end - 1));
        end = end - 1;
    }
    assert(start < end ==> text@.subrange(start as int, end as int).last() == text@[end - 1]);
    text.substring_char(start, end).to_owned()
}

/// `text` without trailing occurrences of `c`.
pub open spec fn without_trailing(text: Seq<char>, c: char) -> Seq<char>
    decreases text.len(),
{
    if text.len() > 0 && text.last() == c {
        without_trailing(text.drop_last(), c)
    } else {
        text
    }
}

/// Copies a text without trailing occurrences of `c`.
pub fn trim_trailing(text: &str, c: char) -> (res: String)
    ensures
        res@ == without_trailing(text@, c),
{
    let n: usize = text.unicode_len();
    let mut end: usize = n;
    assert(text@.subrange(0, end as int) =~= text@);
    while end > 0 && text.get_char(end - 1) == c
        invariant
            n == text@.len(),
            end <= n,
            without_trailing(text@, c) == without_trailing(text@.subrange(0, end as int), c),
        decreases end,
    {
        let ghost seen = text@.subrange(0, end as int);
        assert(seen.last() == text@[end - 1]);
        assert(seen.drop_last() =~= text@.subrange(0, end - 1));
        end = end - 1;
    }
    assert(end > 0 ==> text@.subrange(0, end as int).last() == text@[end - 1]);
    text.substring_char(0, end).to_owned()
}

/// The parts of `text` between occurrences of `separator`; always at least one.
pub open spec fn split(text: Seq<char>, separator: char) -> Seq<Seq<char>>
    decreases text.len(),
{
    if text.len() == 0 {
        seq![Seq::empty()]
    } else {
        let parts = split(text.drop_last(), separator);
        if text.last() == separator {
            parts.push(Seq::empty())
        } else {
            parts.drop_last().push(parts.last().push(text.last()))
        }
    }
}

/// The contents of some texts.
pub open spec fn texts(list: Seq<String>) -> Seq<Seq<char>> {
    Seq::new(list.len(), |i: int| list[i]@)
}

proof fn split_is_nonempty(text: Seq<char>, separator: char)
    ensures
        split(text, separator).len() > 0,
    decreases text.len(),
{
    if text.len() > 0 {
        split_is_nonempty(text.drop_last(), separator);
    }
}

/// Splits a text at every occurrence of `separator`.
pub fn split_text(text: &str, separator: char) -> (res: Vec<String>)
    ensures
        texts(res@) == split(text@, separator),
{
    let n: usize = text.unicode_len();
    let mut parts: Vec<String> = Vec::new();
    let mut start: usize = 0;
    let mut i: usize = 0;
    assert(text@.take(0) =~= Seq::<char>::empty());
    assert(texts(parts@).push(text@.subrange(0, 0)) =~= split(text@.take(0), separator));
    while i < n
        invariant
            n == text@.len(),
            start <= i <= n,
            texts(parts@).push(text@.subrange(start as int, i as int)) == split(
                text@.take(i as int),
                separator,
            ),
        decreases n - i,
    {
        let c: char = text.get_char(i);
        let ghost before = split(text@.take(i as int), separator);
        let ghost current = text@.subrange(start as int, i as int);
        proof {
            split_is_nonempty(text@.take(i as int), separator);
            assert(text@.take(i + 1).drop_last() =~= text@.take(i as int));
            assert(text@.take(i + 1).last() == c);
            assert(before.last() == current);
        }
        if c == separator {
            let ghost seen = parts@;
            parts.push(text.substring_char(start, i).to_owned());
            start = i + 1;
            proof {
                assert(texts(parts@) =~= texts(seen).push(current));
                assert(text@.subrange(i + 1, i + 1) =~= Seq::<char>::empty());
                assert(texts(parts@).push(text@.subrange(start as int, i + 1)) =~= before.push(
                    Seq::empty(),
                ));
            }
        } else {
            proof {
                assert(text@.subrange(start as int, i + 1) =~= current.push(c));
                assert(texts(parts@).push(text@.subrange(start as int, i + 1))
                    =~= before.drop_last().push(before.last().push(c)));
            }
        }
        i = i + 1;
    }
    let ghost seen = parts@;
    let last = text.substring_char(start, n).to_owned();
    parts.push(last);
    assert(texts(parts@) =~= texts(seen).push(text@.subrange(start as int, n as int)));
    assert(text@.take(n as int) =~= text@);
    parts
}

/// `text` begins with `c`.
pub open spec fn begins_with(text: Seq<char>, c: char) -> bool {
    text.len() > 0 && text[0] == c
}

/// Reports whether `text` begins with `c`.
pub fn starts_with_char(text: &str, c: char) -> (res: bool)
    ensures
        res == begins_with(text@, c),
{
    text.unicode_len() > 0 && text.get_char(0) == c
}

/// `text` without `suffix`; `None` when it does not end with it.
pub open spec fn stripped(text: Seq<char>, suffix: Seq<char>) -> Option<Seq<char>> {
    if suffix.len() <= text.len() && text.skip(text.len() - suffix.len()) == suffix {
        Some(text.take(text.len() - suffix.len()))
    } else {
        None
    }
}

/// Copies a text without `suffix`; `None` when it does not end with it.
pub fn strip_suffix(text: &str, suffix: &str) -> (res: Option<String>)
    ensures
        optional_text(res) == stripped(text@, suffix@),
{
    let n: usize = text.unicode_len();
    let m: usize = suffix.unicode_len();
    if n < m {
        return None;
    }
    let tail = text.substring_char(n - m, n);
    assert(tail@ =~= text@.skip(n - m));
    if !same_text(tail, suffix) {
        return None;
    }
    let head = text.substring_char(0, n - m).to_owned();
    assert(head@ =~= text@.take(n - m));
    Some(head)
}

/// Some texts joined by a comma.
pub open spec fn joined(list: Seq<Seq<char>>) -> Seq<char>
    decreases list.len(),
{
    if list.len() == 0 {
        Seq::empty()
    } else if list.len() == 1 {
        list[0]
    } else {
        joined(list.drop_last()) + ","@ + list.last()
    }
}

proof fn lemma_pushed_value(text: Seq<char>, c: char)
    ensures
        decimal_value(text.push(c)) == 10 * decimal_value(text) + (c as int - 48) || (c as int)
            < 48,
{
    assert(text.push(c).drop_last() =~= text);
}

/// A number is written in decimal digits that stand for it again.
pub proof fn decimal_is_read_back(n: nat)
    ensures
        all_decimal(decimal(n)),
        decimal(n).len() > 0,
        decimal_value(decimal(n)) == n,
        n > 0 ==> decimal(n)[0] != '0',
    decreases n,
{
    if n < 10 {
        assert(decimal(n) =~= Seq::<char>::empty().push(digit(n)));
        lemma_pushed_value(Seq::empty(), digit(n));
    } else {
        decimal_is_read_back(n / 10);
        lemma_pushed_value(decimal(n / 10), digit(n % 10));
        assert(decimal(n)[0] == decimal(n / 10)[0]);
    }
}

/// A count is read exactly when it is written in digits after an optional plus sign and fits.
pub proof fn written_count_is_parsed(n: nat)
    requires
        n <= usize::MAX,
    ensures
        parsed_count(decimal(n)) == Some(n),
{
    decimal_is_read_back(n);
    assert(is_decimal(decimal(n)[0]));
    assert(unsigned_digits(decimal(n)) == decimal(n));
}

/// A count that is empty, signed otherwise or holds anything but digits is not read.
pub proof fn other_texts_are_no_count(text: Seq<char>, i: int)
    ensures
        text.len() == 0 ==> parsed_count(text) is None,
        0 <= i < text.len() && !(48 <= text[i] as int <= 57) && (i > 0 || text[i] != '+')
            ==> parsed_count(text) is None,
{
    if 0 <= i < text.len() && !(48 <= text[i] as int <= 57) && (i > 0 || text[i] != '+') {
        let digits = unsigned_digits(text);
        if text[0] == '+' {
            assert(digits[i - 1] == text[i]);
            assert(!is_decimal(digits[i - 1]));
        } else {
            assert(!is_decimal(digits[i]));
        }
    }
}

proof fn lemma_trimmed_start(text: Seq<char>) -> (n: int)
    ensures
        0 <= n <= text.len(),
        trimmed_start(text) == text.skip(n),
        forall|i: int| 0 <= i < n ==> white_space(#[trigger] text[i]),
        n < text.len() ==> !white_space(text[n]),
    decreases text.len(),
{
    if text.len() > 0 && white_space(text[0]) {
        let rest = text.skip(1);
        let m = lemma_trimmed_start(rest);
        assert(rest.skip(m) =~= text.skip(m + 1));
        assert forall|i: int| 0 <= i < m + 1 implies white_space(#[trigger] text[i]) by {
            if i > 0 {
                assert(rest[i - 1] == text[i]);
            }
        }
        if m < rest.len() {
            assert(rest[m] == text[m + 1]);
        }
        m + 1
    } else {
        assert(text.skip(0) =~= text);
        0
    }
}

proof fn lemma_trimmed_end(text: Seq<char>) -> (n: int)
    ensures
        0 <= n <= text.len(),
        trimmed_end(text) == text.take(n),
        forall|i: int| n <= i < text.len() ==> white_space(#[trigger] text[i]),
        n > 0 ==> !white_space(text[n - 1]),
    decreases text.len(),
{
    if text.len() > 0 && white_space(text.last()) {
        let rest = text.drop_last();
        let m = lemma_trimmed_end(rest);
        assert(rest.take(m) =~= text.take(m));
        assert forall|i: int| m <= i < text.len() implies white_space(#[trigger] text[i]) by {
            if i < rest.len() {
                assert(rest[i] == text[i]);
            }
        }
        if m > 0 {
            assert(rest[m - 1] == text[m - 1]);
        }
        m
    } else {
        assert(text.take(text.len() as int) =~= text);
        text.len() as int
    }
}

/// Trimming takes white space off both ends and nothing else: the result is a stretch of the text,
/// all around it is white space, and it neither begins nor ends with any. Nothing is left of a
/// text exactly when it is blank.
pub proof fn trimming_takes_only_white_space(text: Seq<char>) -> (span: (int, int))
    ensures
        0 <= span.0 <= span.1 <= text.len(),
        trimmed(text) == text.subrange(span.0, span.1),
        forall|i: int| 0 <= i < span.0 ==> white_space(#[trigger] text[i]),
        forall|i: int| span.1 <= i < text.len() ==> white_space(#[trigger] text[i]),
        trimmed(text).len() > 0 ==> !white_space(trimmed(text)[0]) && !white_space(
            trimmed(text).last(),
        ),
        blank(text) <==> trimmed(text).len() == 0,
{
    let a = lemma_trimmed_start(text);
    let middle = text.skip(a);
    let b = lemma_trimmed_end(middle);
    assert(middle.take(b) =~= text.subrange(a, a + b));
    assert forall|i: int| a + b <= i < text.len() implies white_space(#[trigger] text[i]) by {
        assert(middle[i - a] == text[i]);
    }
    if b > 0 {
        assert(trimmed(text)[0] == text[a]);
        assert(trimmed(text).last() == middle[b - 1]);
        assert(!white_space(text[a]));
    } else {
        assert forall|i: int| 0 <= i < text.len() implies white_space(#[trigger] text[i]) by {
            if i >= a {
                assert(middle[i - a] == text[i]);
            }
        }
    }
    (a, a + b)
}

/// Taking a trailing character off leaves a text that does not end with it, and takes nothing else.
pub proof fn only_the_trailing_character_is_taken(text: Seq<char>, c: char)
    ensures
        without_trailing(text, c).len() <= text.len(),
        without_trailing(text, c) == text.take(without_trailing(text, c).len() as int),
        without_trailing(text, c).len() > 0 ==> without_trailing(text, c).last() != c,
        forall|i: int|
            without_trailing(text, c).len() <= i < text.len() ==> #[trigger] text[i] == c,
    decreases text.len(),
{
    if text.len() > 0 && text.last() == c {
        let rest = text.drop_last();
        only_the_trailing_character_is_taken(rest, c);
        let n = without_trailing(rest, c).len() as int;
        assert(rest.take(n) =~= text.take(n));
        assert forall|i: int| n <= i < text.len() implies #[trigger] text[i] == c by {
            if i < rest.len() {
                assert(rest[i] == text[i]);
            }
        }
    } else {
        assert(text.take(text.len() as int) =~= text);
    }
}

/// A list of parts with one separator between each two of them.
pub open spec fn separated(parts: Seq<Seq<char>>, separator: char) -> Seq<char>
    decreases parts.len(),
{
    if parts.len() == 0 {
        Seq::empty()
    } else if parts.len() == 1 {
        parts[0]
    } else {
        separated(parts.drop_last(), separator).push(separator) + parts.last()
    }
}

/// Splitting loses nothing: no part holds the separator, and the parts with it between them are
/// the text again.
pub proof fn split_parts_make_up_the_text(text: Seq<char>, separator: char)
    ensures
        split(text, separator).len() > 0,
        separated(split(text, separator), separator) == text,
        forall|i: int|
            0 <= i < split(text, separator).len() ==> !(#[trigger] split(
                text,
                separator,
            )[i]).contains(separator),
    decreases text.len(),
{
    let parts = split(text, separator);
    if text.len() == 0 {
        assert(parts[0].len() == 0);
        assert(separated(parts, separator) =~= text);
    } else {
        let init = text.drop_last();
        let before = split(init, separator);
        split_parts_make_up_the_text(init, separator);
        assert(init.push(text.last()) =~= text);
        if text.last() == separator {
            assert(parts.drop_last() =~= before);
            assert(separated(parts, separator) =~= text);
            assert forall|i: int| 0 <= i < parts.len() implies !(#[trigger] parts[i]).contains(
                separator,
            ) by {
                if i < before.len() {
                    assert(parts[i] == before[i]);
                }
            }
        } else {
            let last = before.last().push(text.last());
            assert(parts.last() == last);
            assert(!before[before.len() - 1].contains(separator));
            assert(!last.contains(separator)) by {
                if last.contains(separator) {
                    let k = last.index_of(separator);
                    assert(last[k] == separator);
                    if k < before.last().len() {
                        assert(before.last()[k] == separator);
                        assert(before.last().contains(separator));
                    }
                }
            }
            if before.len() == 1 {
                assert(separated(parts, separator) =~= text);
            } else {
                assert(parts.drop_last() =~= before.drop_last());
                assert(separated(parts, separator) =~= text);
            }
            assert forall|i: int| 0 <= i < parts.len() implies !(#[trigger] parts[i]).contains(
                separator,
            ) by {
                if i < before.len() - 1 {
                    assert(parts[i] == before[i]);
                }
            }
        }
    }
}

/// A suffix is stripped exactly from the texts that end with it, and what is left is the rest.
pub proof fn stripped_text_lacks_its_suffix(text: Seq<char>, stem: Seq<char>, suffix: Seq<char>)
    ensures
        stripped(stem + suffix, suffix) == Some(stem),
        stripped(text, suffix) matches Some(rest) ==> rest + suffix == text,
        stripped(text, suffix) is None ==> text != stem + suffix,
{
    let whole = stem + suffix;
    assert(whole.skip(stem.len() as int) =~= suffix);
    assert(whole.take(stem.len() as int) =~= stem);
    if let Some(rest) = stripped(text, suffix) {
        assert(rest + suffix =~= text);
    }
}

/// Texts are ordered by the first character in which they differ, and a text comes before its own
/// continuations.
pub proof fn first_difference_decides_the_order(
    common: Seq<char>,
    a: char,
    b: char,
    x: Seq<char>,
    y: Seq<char>,
)
    ensures
        text_less(common, common.push(b) + y),
        (a as int) < (b as int) ==> text_less(common.push(a) + x, common.push(b) + y),
        (b as int) < (a as int) ==> !text_less(common.push(a) + x, common.push(b) + y),
{
    let n = common.len() as int;
    let left = common.push(a) + x;
    let right = common.push(b) + y;
    assert(common.take(n) =~= right.take(n));
    assert(differs_below_at(common, right, n));
    assert(left.take(n) =~= right.take(n));
    if (a as int) < (b as int) {
        assert(differs_below_at(left, right, n));
    }
    if (b as int) < (a as int) {
        assert(differs_below_at(right, left, n));
        if text_less(left, right) {
            text_less_transitive(left, right, left);
            text_less_irreflexive(left);
        }
    }
}

/// Joined lists are the lists' own texts with one comma between each two, in their order.
pub proof fn joined_lists_have_commas_between(first: Seq<Seq<char>>, second: Seq<Seq<char>>)
    ensures
        first.len() == 0 ==> joined(first).len() == 0,
        first.len() == 1 ==> joined(first) == first[0],
        first.len() > 0 && second.len() > 0 ==> joined(first + second) == joined(first) + ","@
            + joined(second),
    decreases second.len(),
{
    if first.len() > 0 && second.len() > 0 {
        assert((first + second).drop_last() == first + second.drop_last());
        assert((first + second).last() == second.last());
        if second.len() == 1 {
            assert(first + second.drop_last() == first);
        } else {
            joined_lists_have_commas_between(first, second.drop_last());
            assert(joined(first) + ","@ + joined(second.drop_last()) + ","@ + second.last()
                == joined(first) + ","@ + (joined(second.drop_last()) + ","@ + second.last()));
        }
    }
}

} // verus!
