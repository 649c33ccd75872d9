//! Text: decimal numbers, words and the small pieces that messages are made of.
use vstd::prelude::*;

verus! {

/// The character of the decimal digit `d`.
pub open spec fn digit_char(d: nat) -> char
    recommends
        d < 10,
{
    (48 + d) as char
}

/// The decimal notation of `n`, without leading zeros.
pub open spec fn decimal(n: nat) -> Seq<char>
    decreases n,
{
    if n < 10 {
        seq![digit_char(n)]
    } else {
        decimal(n / 10).push(digit_char(n % 10))
    }
}

/// The decimal notation of `i`, with a minus sign where it is negative.
pub open spec fn signed_decimal(i: int) -> Seq<char> {
    if i < 0 {
        "-"@ + decimal((-i) as nat)
    } else {
        decimal(i as nat)
    }
}

/// The decimal notation of `n`, filled up with zeros to two digits.
pub open spec fn two_digits(n: nat) -> Seq<char> {
    if n < 10 {
        "0"@ + decimal(n)
    } else {
        decimal(n)
    }
}

fn digit_text(d: u64) -> (text: &'static str)
    requires
        d < 10,
    ensures
        text@ == seq![digit_char(d as nat)],
{
    proof {
        reveal_strlit("0");
        reveal_strlit("1");
        reveal_strlit("2");
        reveal_strlit("3");
        reveal_strlit("4");
        reveal_strlit("5");
        reveal_strlit("6");
        reveal_strlit("7");
        reveal_strlit("8");
        reveal_strlit("9");
    }
    match d {
        0 => "0",
        1 => "1",
        2 => "2",
        3 => "3",
        4 => "4",
        5 => "5",
        6 => "6",
        7 => "7",
        8 => "8",
        _ => "9",
    }
}

/// Appends the decimal notation of `n`.
pub fn push_decimal(out: &mut String, n: u64)
    ensures
        final(out)@ == old(out)@ + decimal(n as nat),
    decreases n,
{
    if n >= 10 {
        push_decimal(out, n / 10);
    }
    out.append(digit_text(n % 10));
    assert(out@ == old(out)@ + decimal(n as nat));
}

/// Appends the decimal notation of `i`.
pub fn push_signed(out: &mut String, i: i64)
    ensures
        final(out)@ == old(out)@ + signed_decimal(i as int),
{
    if i < 0 {
        out.append("-");
        let magnitude: u64 = if i == i64::MIN {
            9223372036854775808
        } else {
            (-i) as u64
        };
        push_decimal(out, magnitude);
    } else {
        push_decimal(out, i as u64);
    }
    assert(out@ == old(out)@ + signed_decimal(i as int));
}

/// Appends the decimal notation of `n`, filled up with zeros to two digits.
pub fn push_two_digits(out: &mut String, n: u64)
    ensures
        final(out)@ == old(out)@ + two_digits(n as nat),
{
    if n < 10 {
        out.append("0");
    }
    push_decimal(out, n);
    assert(out@ == old(out)@ + two_digits(n as nat));
}

/// The characters that separate words: Unicode's `White_Space`.
pub open spec fn is_white(c: char) -> bool {
    let v = c as u32;
    ||| 0x9 <= v <= 0xd
    ||| v == 0x20
    ||| v == 0x85
    ||| v == 0xa0
    ||| v == 0x1680
    ||| 0x2000 <= v <= 0x200a
    ||| v == 0x2028
    ||| v == 0x2029
    ||| v == 0x202f
    ||| v == 0x205f
    ||| v == 0x3000
}

fn white(c: char) -> (yes: bool)
    ensures
        yes == is_white(c),
{
    let v: u32 = c as u32;
    (0x9 <= v && v <= 0xd) || v == 0x20 || v == 0x85 || v == 0xa0 || v == 0x1680 || (0x2000 <= v
        && v <= 0x200a) || v == 0x2028 || v == 0x2029 || v == 0x202f || v == 0x205f || v == 0x3000
}

/// The words of `s` from position `i` on, where the word that `i` continues,
/// if there is one, begins at `start`.
pub open spec fn words_from(s: Seq<char>, start: int, i: int) -> Seq<Seq<char>>
    decreases s.len() - i,
{
    let pending = if start < i {
        seq![s.subrange(start, i)]
    } else {
        Seq::empty()
    };
    if i >= s.len() {
        pending
    } else if is_white(s[i]) {
        pending + words_from(s, i + 1, i + 1)
    } else {
        words_from(s, start, i + 1)
    }
}

/// The words of `s`: its longest runs of characters that are not white, in order.
pub open spec fn words(s: Seq<char>) -> Seq<Seq<char>> {
    words_from(s, 0, 0)
}

/// What the elements of `parts` read.
pub open spec fn texts(parts: Seq<&str>) -> Seq<Seq<char>> {
    parts.map_values(|p: &str| p@)
}

/// Splits `s` into its words.
pub fn split_words(s: &str) -> (parts: Vec<&str>)
    ensures
        texts(parts@) == words(s@),
{
    let n: usize = s.unicode_len();
    let mut parts: Vec<&str> = Vec::new();
    let mut start: usize = 0;
    let mut i: usize = 0;
    assert(texts(parts@) + words_from(s@, 0, 0) == words(s@));
    while i < n
        invariant
            start <= i <= n,
            n == s@.len(),
            texts(parts@) + words_from(s@, start as int, i as int) == words(s@),
        decreases n - i,
    {
        if white(s.get_char(i)) {
            let ghost before = parts@;
            if start < i {
                let word = s.substring_char(start, i);
                parts.push(word);
                assert(texts(parts@) == texts(before) + seq![s@.subrange(start as int, i as int)]);
            }
            assert(texts(parts@) + words_from(s@, i + 1, i + 1) == words(s@));
            start = i + 1;
        }
        i = i + 1;
    }
    let ghost before = parts@;
    if start < i {
        let word = s.substring_char(start, i);
        parts.push(word);
        assert(texts(parts@) == texts(before) + seq![s@.subrange(start as int, i as int)]);
    }
    assert(texts(parts@) == words(s@));
    parts
}

/// The first position of `c` in `s` at or after `i`, or the length of `s`.
pub open spec fn find_from(s: Seq<char>, c: char, i: int) -> int
    decreases s.len() - i,
{
    if i >= s.len() {
        s.len() as int
    } else if s[i] == c {
        i
    } else {
        find_from(s, c, i + 1)
    }
}

/// `s` before and after the first `c` in it, where it holds one.
pub open spec fn split_first(s: Seq<char>, c: char) -> Option<(Seq<char>, Seq<char>)> {
    let i = find_from(s, c, 0);
    if i < s.len() {
        Some((s.subrange(0, i), s.subrange(i + 1, s.len() as int)))
    } else {
        None
    }
}

/// Splits `s` at the first `c` in it.
pub fn split_once(s: &str, c: char) -> (halves: Option<(&str, &str)>)
    ensures
        match halves {
            Some(pair) => split_first(s@, c) == Some((pair.0@, pair.1@)),
            None => split_first(s@, c) is None,
        },
{
    let n: usize = s.unicode_len();
    let mut i: usize = 0;
    while i < n
        invariant
            i <= n,
            n == s@.len(),
            find_from(s@, c, 0) == find_from(s@, c, i as int),
        decreases n - i,
    {
        if s.get_char(i) == c {
            return Some((s.substring_char(0, i), s.substring_char(i + 1, n)));
        }
        i = i + 1;
    }
    None
}

/// The first position at or after `i` whose character is not white, or the
/// length of `s`.
pub open spec fn skip_white(s: Seq<char>, i: int) -> int
    decreases s.len() - i,
{
    if i >= s.len() {
        s.len() as int
    } else if is_white(s[i]) {
        skip_white(s, i + 1)
    } else {
        i
    }
}

/// The end of `s` without the white characters that stand directly before `end`.
pub open spec fn drop_white(s: Seq<char>, end: int) -> int
    decreases end,
{
    if end <= 0 {
        0
    } else if is_white(s[end - 1]) {
        drop_white(s, end - 1)
    } else {
        end
    }
}

/// `s` without the white characters at its two ends.
pub open spec fn trimmed(s: Seq<char>) -> Seq<char> {
    let from = skip_white(s, 0);
    let end = drop_white(s, s.len() as int);
    if from < end {
        s.subrange(from, end)
    } else {
        Seq::empty()
    }
}

/// Takes the white characters off both ends of `s`.
pub fn trim(s: &str) -> (inner: &str)
    ensures
        inner@ == trimmed(s@),
{
    let n: usize = s.unicode_len();
    let mut from: usize = 0;
    while from < n && white(s.get_char(from))
        invariant
            from <= n,
            n == s@.len(),
            skip_white(s@, 0) == skip_white(s@, from as int),
        decreases n - from,
    {
        from = from + 1;
    }
    let mut end: usize = n;
    while end > 0 && white(s.get_char(end - 1))
        invariant
            end <= n,
            n == s@.len(),
            drop_white(s@, n as int) == drop_white(s@, end as int),
        decreases end,
    {
        end = end - 1;
    }
    if from < end {
        s.substring_char(from, end)
    } else {
        s.substring_char(0, 0)
    }
}

/// Whether `c` is one of the ten decimal digits.
pub open spec fn is_digit(c: char) -> bool {
    48 <= c as u32 <= 57
}

/// The number that the digits `s` denote.
pub open spec fn digits_value(s: Seq<char>) -> nat
    decreases s.len(),
{
    if s.len() == 0 {
        0
    } else {
        (10 * digits_value(s.drop_last()) + (s.last() as u32 - 48)) as nat
    }
}

/// What follows an optional leading plus sign.
pub open spec fn unsigned_digits(s: Seq<char>) -> Seq<char> {
    if s.len() > 0 && s[0] == '+' {
        s.subrange(1, s.len() as int)
    } else {
        s
    }
}

/// The number below 2^32 that `s` denotes: an optional plus sign and one or
/// more decimal digits.
pub open spec fn number(s: Seq<char>) -> Option<u32> {
    let digits = unsigned_digits(s);
    if digits.len() > 0 && (forall|i: int| 0 <= i < digits.len() ==> is_digit(#[trigger] digits[i]))
        && digits_value(digits) <= u32::MAX {
        Some(digits_value(digits) as u32)
    } else {
        None
    }
}

proof fn lemma_digits_grow(s: Seq<char>, k: int)
    requires
        0 <= k <= s.len(),
        forall|i: int| 0 <= i < s.len() ==> is_digit(#[trigger] s[i]),
    ensures
        digits_value(s.take(k)) <= digits_value(s),
    decreases s.len() - k,
{
    if k < s.len() {
        lemma_digits_grow(s, k + 1);
        assert(s.take(k + 1).drop_last() == s.take(k));
        assert(s.take(k + 1).last() == s[k]);
    } else {
        assert(s.take(k) == s);
    }
}

/// Reads a number as `number` says.
pub fn parse_number(s: &str) -> (value: Option<u32>)
    ensures
        value == number(s@),
{
    let n: usize = s.unicode_len();
    let from: usize = if n > 0 && s.get_char(0) == '+' {
        1
    } else {
        0
    };
    let ghost digits = unsigned_digits(s@);
    assert(digits == s@.subrange(from as int, n as int));
    if from == n {
        return None;
    }
    let mut total: u64 = 0;
    let mut i: usize = from;
    assert(digits.take(0) == Seq::<char>::empty());
    while i < n
        invariant
            from <= i <= n,
            from < n,
            n == s@.len(),
            digits == unsigned_digits(s@),
            digits == s@.subrange(from as int, n as int),
            total <= u32::MAX,
            total == digits_value(digits.take(i - from)),
            forall|j: int| 0 <= j < i - from ==> is_digit(#[trigger] digits[j]),
        decreases n - i,
    {
        let v: u32 = s.get_char(i) as u32;
        assert(digits[i - from] == s@[i as int]);
        if v < 48 || v > 57 {
            assert(!is_digit(digits[i - from]));
            return None;
        }
        assert(digits.take(i - from + 1).drop_last() == digits.take(i - from));
        assert(digits.take(i - from + 1).last() == digits[i - from]);
        total = 10 * total + (v - 48) as u64;
        if total > 4294967295 {
            proof {
                if forall|j: int| 0 <= j < digits.len() ==> is_digit(#[trigger] digits[j]) {
                    lemma_digits_grow(digits, i - from + 1);
                }
            }
            return None;
        }
        i = i + 1;
    }
    assert(digits.take(n - from) == digits);
    Some(total as u32)
}

proof fn lemma_decimal_value(n: nat)
    ensures
        decimal(n).len() > 0,
        forall|i: int| 0 <= i < decimal(n).len() ==> is_digit(#[trigger] decimal(n)[i]),
        digits_value(decimal(n)) == n,
    decreases n,
{
    reveal_with_fuel(digits_value, 2);
    if n >= 10 {
        lemma_decimal_value(n / 10);
        assert(decimal(n).drop_last() == decimal(n / 10));
    } else {
        assert(decimal(n).drop_last() == Seq::<char>::empty());
    }
}

/// A number in decimal notation, which is made of digits alone, is read back.
pub proof fn decimal_is_read(n: u32)
    ensures
        decimal(n as nat).len() > 0,
        forall|i: int|
            0 <= i < decimal(n as nat).len() ==> is_digit(#[trigger] decimal(n as nat)[i]),
        number(decimal(n as nat)) == Some(n),
{
    lemma_decimal_value(n as nat);
    assert(is_digit(decimal(n as nat)[0]));
}

/// A number filled up to two digits is read back.
pub proof fn two_digits_are_read(n: u32)
    ensures
        two_digits(n as nat).len() > 0,
        forall|i: int|
            0 <= i < two_digits(n as nat).len() ==> is_digit(#[trigger] two_digits(n as nat)[i]),
        number(two_digits(n as nat)) == Some(n),
{
    let s = two_digits(n as nat);
    lemma_decimal_value(n as nat);
    if n < 10 {
        reveal_strlit("0");
        reveal_with_fuel(digits_value, 3);
        assert(s == seq!['0', digit_char(n as nat)]);
        assert(s.drop_last() == seq!['0']);
        assert(s.drop_last().drop_last() == Seq::<char>::empty());
    }
    assert(is_digit(s[0]));
}

proof fn lemma_rest_of_word(s: Seq<char>, start: int, i: int)
    requires
        0 <= start <= i <= s.len(),
        start < s.len(),
        forall|j: int| i <= j < s.len() ==> !is_white(#[trigger] s[j]),
    ensures
        words_from(s, start, i) == seq![s.subrange(start, s.len() as int)],
    decreases s.len() - i,
{
    if i < s.len() {
        lemma_rest_of_word(s, start, i + 1);
    }
}

/// A text without white characters is one word.
pub proof fn lemma_single_word(word: Seq<char>)
    requires
        word.len() > 0,
        forall|j: int| 0 <= j < word.len() ==> !is_white(#[trigger] word[j]),
    ensures
        words(word) == seq![word],
{
    lemma_rest_of_word(word, 0, 0);
    assert(word.subrange(0, word.len() as int) == word);
}

proof fn lemma_words_before(s: Seq<char>, word: Seq<char>, start: int, i: int)
    requires
        0 <= start <= i <= s.len(),
        word.len() > 0,
        forall|j: int| 0 <= j < word.len() ==> !is_white(#[trigger] word[j]),
    ensures
        words_from(s + " "@ + word, start, i) == words_from(s, start, i).push(word),
    decreases s.len() - i,
{
    reveal_strlit(" ");
    let all = s + " "@ + word;
    if start < i {
        assert(all.subrange(start, i) == s.subrange(start, i));
    }
    if i < s.len() {
        assert(all[i] == s[i]);
        if is_white(s[i]) {
            lemma_words_before(s, word, i + 1, i + 1);
        } else {
            lemma_words_before(s, word, start, i + 1);
        }
    } else {
        assert(all[i] == ' ');
        assert forall|j: int| i + 1 <= j < all.len() implies !is_white(#[trigger] all[j]) by {
            assert(all[j] == word[j - i - 1]);
        }
        lemma_rest_of_word(all, i + 1, i + 1);
        assert(all.subrange(i + 1, all.len() as int) == word);
    }
    assert(words_from(all, start, i) == words_from(s, start, i).push(word));
}

/// A word behind a space is the last of a text's words.
pub proof fn lemma_word_behind(s: Seq<char>, word: Seq<char>)
    requires
        word.len() > 0,
        forall|j: int| 0 <= j < word.len() ==> !is_white(#[trigger] word[j]),
    ensures
        words(s + " "@ + word) == words(s).push(word),
{
    lemma_words_before(s, word, 0, 0);
}

} // verus!
