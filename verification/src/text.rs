//! Text as sequences of characters: the operations on which the rest of the
//! library builds its path mapping, its step templates and its messages.

use vstd::prelude::*;
use vstd::string::*;

verus! {

/// Whether `pattern` stands in `text` at position `at`.
pub open spec fn occurs_at(text: Seq<char>, at: int, pattern: Seq<char>) -> bool {
    &&& 0 <= at
    &&& at + pattern.len() <= text.len()
    &&& text.subrange(at, at + pattern.len()) == pattern
}

/// `text` with a leading `from` exchanged for `to`; `text` itself where it
/// does not begin with `from`.
pub open spec fn replace_prefix(text: Seq<char>, from: Seq<char>, to: Seq<char>) -> Seq<char> {
    if occurs_at(text, 0, from) {
        to + text.skip(from.len() as int)
    } else {
        text
    }
}

/// The fields of `text` between occurrences of `separator`. A text without
/// the separator is one field; two adjacent separators enclose an empty field.
pub open spec fn split_fields(text: Seq<char>, separator: char) -> Seq<Seq<char>>
    decreases text.len(),
{
    if text.len() == 0 {
        seq![Seq::<char>::empty()]
    } else {
        let before = split_fields(text.drop_last(), separator);
        if text.last() == separator {
            before.push(Seq::<char>::empty())
        } else {
            before.drop_last().push(before.last().push(text.last()))
        }
    }
}

/// The fields joined again, with `separator` between neighbours.
pub open spec fn join_fields(fields: Seq<Seq<char>>, separator: char) -> Seq<char>
    decreases fields.len(),
{
    if fields.len() == 0 {
        Seq::<char>::empty()
    } else if fields.len() == 1 {
        fields[0]
    } else {
        join_fields(fields.drop_last(), separator).push(separator) + fields.last()
    }
}

/// The decimal digit for `d`, where `0 <= d <= 9`.
pub open spec fn digit(d: int) -> char {
    if d == 0 {
        '0'
    } else if d == 1 {
        '1'
    } else if d == 2 {
        '2'
    } else if d == 3 {
        '3'
    } else if d == 4 {
        '4'
    } else if d == 5 {
        '5'
    } else if d == 6 {
        '6'
    } else if d == 7 {
        '7'
    } else if d == 8 {
        '8'
    } else {
        '9'
    }
}

/// A natural number in decimal, without leading zeros.
pub open spec fn decimal_nat(n: nat) -> Seq<char>
    decreases n,
{
    if n < 10 {
        seq![digit(n as int)]
    } else {
        decimal_nat(n / 10).push(digit((n % 10) as int))
    }
}

/// An integer in decimal, with a minus sign where it is negative.
pub open spec fn decimal(n: int) -> Seq<char> {
    if n < 0 {
        seq!['-'] + decimal_nat((-n) as nat)
    } else {
        decimal_nat(n as nat)
    }
}

/// The characters of `s` in a vector, for indexing in constant time.
pub fn chars_of(s: &str) -> (v: Vec<char>)
    ensures
        v@ == s@,
{
    let mut v: Vec<char> = Vec::new();
    for c in it: s.chars()
        invariant
            v@ == it.seq().take(it.index()),
    {
        v.push(c);
    }
    v
}

/// Tests whether `pattern` stands in `text` at `at`.
pub fn matches_at(text: &Vec<char>, at: usize, pattern: &Vec<char>) -> (b: bool)
    ensures
        b == occurs_at(text@, at as int, pattern@),
{
    let n: usize = pattern.len();
    if at > text.len() || n > text.len() - at {
        return false;
    }
    let mut k: usize = 0;
    while k < n
        invariant
            k <= n,
            n == pattern.len(),
            at + n <= text.len(),
            forall|j: int| 0 <= j < k ==> text@[at + j] == pattern@[j],
        decreases n - k,
    {
        if text[at + k] != pattern[k] {
            return false;
        }
        k += 1;
    }
    assert(text@.subrange(at as int, at + n) =~= pattern@);
    true
}

/// The one-character text of a decimal digit.
fn digit_text(d: u64) -> (s: &'static str)
    requires
        d < 10,
    ensures
        s@ == seq![digit(d as int)],
{
    proof {
        reveal_strlit("0");
        reveal_strlit("1");
        reveal_strlit("2");
        reveal_strlit("3");
        reveal_strlit("4");
        reveal_strlit("5");
        reveal_strlit("6");
        reveal_strlit("7");
        reveal_strlit("8");
        reveal_strlit("9");
    }
    let s = if d == 0 {
        "0"
    } else if d == 1 {
        "1"
    } else if d == 2 {
        "2"
    } else if d == 3 {
        "3"
    } else if d == 4 {
        "4"
    } else if d == 5 {
        "5"
    } else if d == 6 {
        "6"
    } else if d == 7 {
        "7"
    } else if d == 8 {
        "8"
    } else {
        "9"
    };
    s
}

/// Appends `n` in decimal to `out`.
pub fn append_decimal(out: &mut String, n: u64)
    ensures
        final(out)@ == old(out)@ + decimal_nat(n as nat),
    decreases n,
{
    if n >= 10 {
        append_decimal(out, n / 10);
    }
    out.append(digit_text(n % 10));
}

/// Appends the integer `n` in decimal to `out`.
pub fn append_signed_decimal(out: &mut String, n: i64)
    ensures
        final(out)@ == old(out)@ + decimal(n as int),
{
    if n < 0 {
        proof {
            reveal_strlit("-");
        }
        out.append("-");
        let magnitude: u64 = if n == i64::MIN {
            9223372036854775808u64
        } else {
            (-n) as u64
        };
        append_decimal(out, magnitude);
    } else {
        append_decimal(out, n as u64);
    }
}

/// Every text has at least one field.
pub proof fn lemma_split_fields_len(text: Seq<char>, separator: char)
    ensures
        split_fields(text, separator).len() >= 1,
    decreases text.len(),
{
    if text.len() > 0 {
        lemma_split_fields_len(text.drop_last(), separator);
    }
}

/// The last field is what follows the last separator.
pub proof fn lemma_last_field(text: Seq<char>, separator: char, from: int)
    requires
        0 <= from <= text.len(),
        forall|j: int| from <= j < text.len() ==> text[j] != separator,
        from == 0 || text[from - 1] == separator,
    ensures
        split_fields(text, separator).last() == text.skip(from),
    decreases text.len(),
{
    lemma_split_fields_len(text, separator);
    if from < text.len() {
        lemma_split_fields_len(text.drop_last(), separator);
        lemma_last_field(text.drop_last(), separator, from);
    }
}

/// `text` with a leading `from` exchanged for `to`.
pub fn with_prefix_replaced(text: &str, from: &str, to: &str) -> (out: String)
    ensures
        out@ == replace_prefix(text@, from@, to@),
{
    let chars = chars_of(text);
    let prefix = chars_of(from);
    if matches_at(&chars, 0, &prefix) {
        let mut out = String::from_str(to);
        out.append(text.substring_char(prefix.len(), chars.len()));
        out
    } else {
        String::from_str(text)
    }
}

/// The last field of `text`: what follows its last `separator`, or all of it.
pub fn last_field(text: &str, separator: char) -> (field: &str)
    ensures
        field@ == split_fields(text@, separator).last(),
{
    let chars = chars_of(text);
    let n: usize = chars.len();
    let mut from: usize = n;
    while from > 0 && chars[from - 1] != separator
        invariant
            from <= n,
            n == chars@.len(),
            chars@ == text@,
            forall|j: int| from <= j < n ==> text@[j] != separator,
        decreases from,
    {
        from -= 1;
    }
    proof {
        lemma_last_field(text@, separator, from as int);
    }
    text.substring_char(from, n)
}

/// Whether `a` and `b` read the same.
pub fn same_text(a: &str, b: &str) -> (same: bool)
    ensures
        same == (a@ == b@),
{
    let left = chars_of(a);
    let right = chars_of(b);
    if left.len() != right.len() {
        return false;
    }
    let same = matches_at(&left, 0, &right);
    assert(left@.subrange(0, right@.len() as int) =~= left@);
    same
}

/// Joining the fields of a text gives the text back.
pub proof fn lemma_split_fields_join(text: Seq<char>, separator: char)
    ensures
        join_fields(split_fields(text, separator), separator) == text,
    decreases text.len(),
{
    if text.len() > 0 {
        let fields = split_fields(text, separator);
        let before = split_fields(text.drop_last(), separator);
        lemma_split_fields_len(text.drop_last(), separator);
        lemma_split_fields_join(text.drop_last(), separator);
        if text.last() == separator {
            assert(fields.drop_last() =~= before);
        } else if before.len() > 1 {
            assert(fields.drop_last() =~= before.drop_last());
        }
        assert(text.drop_last().push(text.last()) =~= text);
    }
}

/// No field holds the separator.
pub proof fn lemma_split_fields_hold_no_separator(text: Seq<char>, separator: char)
    ensures
        forall|i: int|
            0 <= i < split_fields(text, separator).len() ==> !(#[trigger] split_fields(
                text,
                separator,
            )[i]).contains(separator),
    decreases text.len(),
{
    if text.len() > 0 {
        lemma_split_fields_len(text.drop_last(), separator);
        lemma_split_fields_hold_no_separator(text.drop_last(), separator);
    }
}

/// Whether `c` is white space, as Unicode has it: the characters with the
/// property `White_Space`.
pub open spec fn is_white_space(c: char) -> bool {
    let n = c as u32;
    ||| 0x09 <= n <= 0x0D
    ||| n == 0x20
    ||| n == 0x85
    ||| n == 0xA0
    ||| n == 0x1680
    ||| 0x2000 <= n <= 0x200A
    ||| n == 0x2028
    ||| n == 0x2029
    ||| n == 0x202F
    ||| n == 0x205F
    ||| n == 0x3000
}

/// The words of `text`, in order: its longest runs of characters that are
/// no white space. White space divides the words and belongs to none.
pub open spec fn words(text: Seq<char>) -> Seq<Seq<char>>
    decreases text.len(),
{
    if text.len() == 0 {
        Seq::<Seq<char>>::empty()
    } else {
        let before = words(text.drop_last());
        if is_white_space(text.last()) {
            before
        } else if text.len() >= 2 && !is_white_space(text[text.len() - 2]) {
            // The last character goes on with the last word.
            before.drop_last().push(before.last().push(text.last()))
        } else {
            // The last character begins a word.
            before.push(seq![text.last()])
        }
    }
}

/// Tests whether `c` is white space.
pub fn white_space(c: char) -> (b: bool)
    ensures
        b == is_white_space(c),
{
    let n: u32 = c as u32;
    (0x09 <= n && n <= 0x0D) || n == 0x20 || n == 0x85 || n == 0xA0 || n == 0x1680 || (0x2000 <= n
        && n <= 0x200A) || n == 0x2028 || n == 0x2029 || n == 0x202F || n == 0x205F || n == 0x3000
}

/// Divides `text` into its words.
pub fn split_words(text: &str) -> (found: Vec<String>)
    ensures
        found.deep_view() == words(text@),
{
    let chars = chars_of(text);
    let n: usize = chars.len();
    let mut found: Vec<String> = Vec::new();
    // Where the word began that the character in front of `i` belongs to.
    let mut start: usize = 0;
    let mut in_word = false;
    let mut i: usize = 0;
    while i < n
        invariant
            start <= i <= n,
            n == chars@.len(),
            chars@ == text@,
            in_word == (i > 0 && !is_white_space(text@[i - 1])),
            in_word ==> start < i,
            words(text@.take(i as int)).len() == found@.len() + if in_word {
                1nat
            } else {
                0nat
            },
            forall|j: int|
                0 <= j < found@.len() ==> (#[trigger] found@[j])@ == words(text@.take(i as int))[j],
            in_word ==> words(text@.take(i as int)).last() == text@.subrange(
                start as int,
                i as int,
            ),
        decreases n - i,
    {
        assert(text@.take(i + 1).drop_last() =~= text@.take(i as int));
        if white_space(chars[i]) {
            if in_word {
                found.push(String::from_str(text.substring_char(start, i)));
                in_word = false;
            }
        } else {
            if !in_word {
                start = i;
                in_word = true;
            }
            assert(text@.subrange(start as int, i + 1) =~= text@.subrange(
                start as int,
                i as int,
            ).push(text@[i as int]));
        }
        i += 1;
    }
    assert(text@.take(n as int) =~= text@);
    if in_word {
        found.push(String::from_str(text.substring_char(start, n)));
    }
    found
}

/// A text has no word where all of it is white space, and nowhere else.
pub proof fn lemma_words_of_white_space(text: Seq<char>)
    ensures
        words(text).len() == 0 <==> forall|i: int| 0 <= i < text.len() ==> is_white_space(text[i]),
    decreases text.len(),
{
    if text.len() > 0 {
        lemma_words_of_white_space(text.drop_last());
        if is_white_space(text.last()) && words(text).len() == 0 {
            assert forall|i: int| 0 <= i < text.len() implies is_white_space(text[i]) by {
                if i < text.len() - 1 {
                    assert(text.drop_last()[i] == text[i]);
                }
            }
        }
        if forall|i: int| 0 <= i < text.len() ==> is_white_space(text[i]) {
            assert forall|i: int| 0 <= i < text.drop_last().len() implies is_white_space(
                text.drop_last()[i],
            ) by {
                assert(text.drop_last()[i] == text[i]);
            }
        }
    }
}

/// Every word holds a character, and none of its characters is white
/// space.
pub proof fn lemma_words_hold_no_white_space(text: Seq<char>)
    ensures
        forall|i: int|
            0 <= i < words(text).len() ==> (#[trigger] words(text)[i]).len() > 0 && forall|k: int|
                0 <= k < words(text)[i].len() ==> !is_white_space(words(text)[i][k]),
    decreases text.len(),
{
    if text.len() > 0 {
        lemma_words_hold_no_white_space(text.drop_last());
        lemma_words_of_white_space(text.drop_last());
        if text.len() >= 2 {
            assert(text.drop_last()[text.len() - 2] == text[text.len() - 2]);
        }
    }
}

/// A text without white space is one word.
pub proof fn lemma_word_alone(word: Seq<char>)
    requires
        word.len() > 0,
        forall|k: int| 0 <= k < word.len() ==> !is_white_space(word[k]),
    ensures
        words(word) == seq![word],
    decreases word.len(),
{
    if word.len() >= 2 {
        lemma_word_alone(word.drop_last());
        assert(word.drop_last().push(word.last()) =~= word);
        assert(seq![word.drop_last()].drop_last().push(word.drop_last().push(word.last()))
            =~= seq![word]);
    } else {
        assert(words(word.drop_last()) =~= Seq::<Seq<char>>::empty());
        assert(seq![word.last()] =~= word);
    }
}

/// White space divides: the words of a text with a white space in it are
/// those in front of the white space, then those behind it.
pub proof fn lemma_words_around_white_space(front: Seq<char>, c: char, back: Seq<char>)
    requires
        is_white_space(c),
    ensures
        words(front + seq![c] + back) == words(front) + words(back),
    decreases back.len(),
{
    let whole = front + seq![c] + back;
    if back.len() == 0 {
        assert(whole.drop_last() =~= front);
        assert(words(front) + words(back) =~= words(front));
    } else {
        lemma_words_around_white_space(front, c, back.drop_last());
        lemma_words_of_white_space(back.drop_last());
        assert(whole.drop_last() =~= front + seq![c] + back.drop_last());
        if back.len() >= 2 {
            assert(back.drop_last()[back.len() - 2] == back[back.len() - 2]);
        }
        assert(words(whole) =~= words(front) + words(back));
    }
}

} // verus!
