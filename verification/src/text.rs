//! Text helpers: white space, words, decimal numbers and suffixes, all
//! stated over sequences of characters.

use vstd::prelude::*;

verus! {

/// The characters that carry the Unicode property `White_Space`.
pub open spec fn is_white_space(c: char) -> bool {
    ||| c == ' '
    ||| '\t' <= c <= '\r'
    ||| c == '\u{85}'
    ||| c == '\u{A0}'
    ||| c == '\u{1680}'
    ||| '\u{2000}' <= c <= '\u{200A}'
    ||| c == '\u{2028}'
    ||| c == '\u{2029}'
    ||| c == '\u{202F}'
    ||| c == '\u{205F}'
    ||| c == '\u{3000}'
}

/// Length of the run of characters at the front of `s` that are no white space.
pub open spec fn word_len(s: Seq<char>) -> nat
    decreases s.len(),
{
    if s.len() == 0 || is_white_space(s[0]) {
        0
    } else {
        1 + word_len(s.skip(1))
    }
}

/// The words of `s`: its maximal runs of characters that are no white
/// space, from left to right.
pub open spec fn split_words(s: Seq<char>) -> Seq<Seq<char>>
    decreases s.len(),
{
    if s.len() == 0 {
        seq![]
    } else if is_white_space(s[0]) {
        split_words(s.skip(1))
    } else {
        let n = word_len(s) as int;
        proof {
            lemma_word_len_bounds(s);
        }
        seq![s.take(n)] + split_words(s.skip(n))
    }
}

/// The words of every text of `texts`, in order.
pub open spec fn split_all(texts: Seq<Seq<char>>) -> Seq<Seq<char>>
    decreases texts.len(),
{
    if texts.len() == 0 {
        seq![]
    } else {
        split_all(texts.drop_last()) + split_words(texts.last())
    }
}

/// The character of a decimal digit.
pub open spec fn digit_char(d: nat) -> char {
    (d + 48) as char
}

/// The decimal numeral of `n`, without sign or leading zeros.
pub open spec fn decimal(n: nat) -> Seq<char>
    decreases n,
{
    if n < 10 {
        seq![digit_char(n)]
    } else {
        decimal(n / 10).push(digit_char(n % 10))
    }
}

/// The texts of `lines` with a line feed between each two.
pub open spec fn join_lines(lines: Seq<Seq<char>>) -> Seq<char>
    decreases lines.len(),
{
    if lines.len() == 0 {
        seq![]
    } else if lines.len() == 1 {
        lines[0]
    } else {
        join_lines(lines.drop_last()) + seq!['\n'] + lines.last()
    }
}

/// Whether `s` ends with `suffix`.
pub open spec fn ends_with(s: Seq<char>, suffix: Seq<char>) -> bool {
    suffix.len() <= s.len() && s.skip(s.len() - suffix.len()) == suffix
}

/// Whether `s` begins with `prefix`.
pub open spec fn starts_with(s: Seq<char>, prefix: Seq<char>) -> bool {
    prefix.len() <= s.len() && s.take(prefix.len() as int) == prefix
}

/// `s` with `to` in the place of every `from`: `s` is read from left to
/// right, and what was replaced is not read again. An empty `from` is
/// found nowhere.
pub open spec fn replaced(s: Seq<char>, from: Seq<char>, to: Seq<char>) -> Seq<char>
    decreases s.len(),
{
    if from.len() == 0 || s.len() == 0 {
        s
    } else if starts_with(s, from) {
        to + replaced(s.skip(from.len() as int), from, to)
    } else {
        seq![s[0]] + replaced(s.skip(1), from, to)
    }
}

pub proof fn lemma_word_len_bounds(s: Seq<char>)
    ensures
        word_len(s) <= s.len(),
        s.len() > 0 && !is_white_space(s[0]) ==> word_len(s) >= 1,
    decreases s.len(),
{
    if s.len() > 0 && !is_white_space(s[0]) {
        lemma_word_len_bounds(s.skip(1));
    }
}

/// A run of characters without white space that ends at the end of the text
/// or before a white space is a whole word.
pub proof fn lemma_word_len_run(s: Seq<char>, start: int, end: int)
    requires
        0 <= start <= end <= s.len(),
        forall|k: int| start <= k < end ==> !is_white_space(s[k]),
        end == s.len() || is_white_space(s[end]),
    ensures
        word_len(s.skip(start)) == end - start,
    decreases end - start,
{
    let t = s.skip(start);
    if start < end {
        lemma_word_len_run(s, start + 1, end);
        assert(t.skip(1) =~= s.skip(start + 1));
    }
}

/// Splitting goes through concatenation of lists of texts.
pub proof fn lemma_split_all_concat(a: Seq<Seq<char>>, b: Seq<Seq<char>>)
    ensures
        split_all(a + b) == split_all(a) + split_all(b),
    decreases b.len(),
{
    if b.len() == 0 {
        assert(a + b =~= a);
        assert(split_all(a) + split_all(b) =~= split_all(a));
    } else {
        lemma_split_all_concat(a, b.drop_last());
        assert((a + b).drop_last() =~= a + b.drop_last());
        assert((a + b).last() == b.last());
        assert(split_all(a + b) =~= split_all(a) + split_all(b));
    }
}

/// Whether `c` is white space.
pub fn is_whitespace(c: char) -> (r: bool)
    ensures
        r == is_white_space(c),
{
    c == ' ' || ('\t' <= c && c <= '\r') || c == '\u{85}' || c == '\u{A0}' || c == '\u{1680}' || (
    '\u{2000}' <= c && c <= '\u{200A}') || c == '\u{2028}' || c == '\u{2029}' || c == '\u{202F}'
        || c == '\u{205F}' || c == '\u{3000}'
}

/// Whether two texts hold the same characters.
pub fn same_text(a: &str, b: &str) -> (r: bool)
    ensures
        r == (a@ == b@),
{
    let x = String::from_str(a);
    let y = String::from_str(b);
    x.eq(&y)
}

/// Splits `s` at white space into its words; a text of white space alone
/// has none.
pub fn split_whitespace(s: &str) -> (words: Vec<String>)
    ensures
        words.deep_view() == split_words(s@),
{
    let n: usize = s.unicode_len();
    let mut words: Vec<String> = Vec::new();
    let mut i: usize = 0;
    assert(s@.skip(0) =~= s@);
    assert(words.deep_view() + split_words(s@) =~= split_words(s@));
    while i < n
        invariant
            n == s@.len(),
            i <= n,
            split_words(s@) == words.deep_view() + split_words(s@.skip(i as int)),
        decreases n - i,
    {
        let ghost rest = s@.skip(i as int);
        if is_whitespace(s.get_char(i)) {
            assert(rest.skip(1) =~= s@.skip(i + 1));
            i = i + 1;
        } else {
            let start: usize = i;
            i = i + 1;
            while i < n && !is_whitespace(s.get_char(i))
                invariant
                    n == s@.len(),
                    start < i <= n,
                    forall|k: int| start <= k < i ==> !is_white_space(s@[k]),
                decreases n - i,
            {
                i = i + 1;
            }
            let word = String::from_str(s.substring_char(start, i));
            proof {
                lemma_word_len_run(s@, start as int, i as int);
                assert(rest.take(i - start) =~= s@.subrange(start as int, i as int));
                assert(rest.skip(i - start) =~= s@.skip(i as int));
            }
            let ghost before = words.deep_view();
            words.push(word);
            assert(words.deep_view() =~= before.push(word@));
            assert(before + (seq![word@] + split_words(s@.skip(i as int))) =~= before.push(word@)
                + split_words(s@.skip(i as int)));
        }
    }
    assert(words.deep_view() + split_words(s@.skip(n as int)) =~= words.deep_view());
    words
}

/// Splits every text of `texts` at white space and lines the words up.
pub fn split_each(texts: &Vec<String>) -> (words: Vec<String>)
    ensures
        words.deep_view() == split_all(texts.deep_view()),
{
    let mut words: Vec<String> = Vec::new();
    let mut i: usize = 0;
    assert(texts.deep_view().take(0) =~= Seq::<Seq<char>>::empty());
    assert(words.deep_view() =~= Seq::<Seq<char>>::empty());
    while i < texts.len()
        invariant
            i <= texts.len(),
            words.deep_view() == split_all(texts.deep_view().take(i as int)),
        decreases texts.len() - i,
    {
        let mut part = split_whitespace(texts[i].as_str());
        let ghost before = words.deep_view();
        let ghost added = part.deep_view();
        words.append(&mut part);
        proof {
            let t = texts.deep_view();
            assert(t.take(i + 1).drop_last() =~= t.take(i as int));
            assert(t.take(i + 1).last() == texts[i as int]@);
            assert(words.deep_view() =~= before + added);
        }
        i = i + 1;
    }
    assert(texts.deep_view().take(texts.len() as int) =~= texts.deep_view());
    words
}

fn digit_str(d: u64) -> (r: &'static str)
    requires
        d < 10,
    ensures
        r@ == seq![digit_char(d as nat)],
{
    proof {
        reveal_strlit("0");
        reveal_strlit("1");
        reveal_strlit("2");
        reveal_strlit("3");
        reveal_strlit("4");
        reveal_strlit("5");
        reveal_strlit("6");
        reveal_strlit("7");
        reveal_strlit("8");
        reveal_strlit("9");
    }
    let r = if d == 0 {
        "0"
    } else if d == 1 {
        "1"
    } else if d == 2 {
        "2"
    } else if d == 3 {
        "3"
    } else if d == 4 {
        "4"
    } else if d == 5 {
        "5"
    } else if d == 6 {
        "6"
    } else if d == 7 {
        "7"
    } else if d == 8 {
        "8"
    } else {
        "9"
    };
    assert(r@ =~= seq![digit_char(d as nat)]);
    r
}

/// Writes `n` as a decimal numeral.
pub fn decimal_string(n: u64) -> (r: String)
    ensures
        r@ == decimal(n as nat),
    decreases n,
{
    if n < 10 {
        String::from_str(digit_str(n))
    } else {
        let head = decimal_string(n / 10);
        let r = head.concat(digit_str(n % 10));
        assert(r@ =~= decimal(n as nat));
        r
    }
}

/// Whether `s` ends with `suffix`.
pub fn has_suffix(s: &str, suffix: &str) -> (r: bool)
    ensures
        r == ends_with(s@, suffix@),
{
    let n: usize = s.unicode_len();
    let m: usize = suffix.unicode_len();
    if m > n {
        false
    } else {
        let tail = s.substring_char(n - m, n);
        assert(s@.subrange(n - m, n as int) =~= s@.skip(n - m));
        same_text(tail, suffix)
    }
}

/// Joins `lines` with a line feed between each two.
pub fn join_with_newlines(lines: &Vec<String>) -> (text: String)
    ensures
        text@ == join_lines(lines.deep_view()),
{
    let mut text = String::new();
    let mut i: usize = 0;
    proof {
        reveal_strlit("\n");
        assert(lines.deep_view().take(0) =~= Seq::<Seq<char>>::empty());
    }
    while i < lines.len()
        invariant
            i <= lines.len(),
            text@ == join_lines(lines.deep_view().take(i as int)),
            "\n"@.len() == 1,
            "\n"@[0] == '\n',
        decreases lines.len() - i,
    {
        proof {
            let all = lines.deep_view();
            assert(all.take(i + 1).drop_last() =~= all.take(i as int));
            assert(all.take(i + 1).last() == lines[i as int]@);
            assert("\n"@ =~= seq!['\n']);
        }
        if i > 0 {
            text.append("\n");
        }
        text.append(lines[i].as_str());
        proof {
            let all = lines.deep_view();
            if i == 0 {
                assert(text@ =~= all.take(1)[0]);
            }
        }
        i = i + 1;
    }
    assert(lines.deep_view().take(lines.len() as int) =~= lines.deep_view());
    text
}

/// A copy of `texts`.
pub fn clone_texts(texts: &Vec<String>) -> (copy: Vec<String>)
    ensures
        copy.deep_view() == texts.deep_view(),
{
    let mut copy: Vec<String> = Vec::new();
    let mut i: usize = 0;
    while i < texts.len()
        invariant
            i <= texts.len(),
            copy.deep_view() == texts.deep_view().take(i as int),
        decreases texts.len() - i,
    {
        let ghost before = copy.deep_view();
        copy.push(texts[i].clone());
        assert(copy.deep_view() =~= before.push(texts[i as int]@));
        assert(texts.deep_view().take(i + 1) =~= before.push(texts[i as int]@));
        i = i + 1;
    }
    assert(texts.deep_view().take(texts.len() as int) =~= texts.deep_view());
    copy
}

/// Whether `texts` holds `text`.
pub fn holds_text(texts: &Vec<String>, text: &str) -> (found: bool)
    ensures
        found == texts.deep_view().contains(text@),
{
    let mut i: usize = 0;
    while i < texts.len()
        invariant
            i <= texts.len(),
            forall|k: int| 0 <= k < i ==> texts.deep_view()[k] != text@,
        decreases texts.len() - i,
    {
        if same_text(texts[i].as_str(), text) {
            assert(texts.deep_view()[i as int] == text@);
            return true;
        }
        i = i + 1;
    }
    false
}

/// Puts `to` in the place of every `from` in `text`.
pub fn replace_all(text: &str, from: &str, to: &str) -> (result: String)
    ensures
        result@ == replaced(text@, from@, to@),
{
    let n: usize = text.unicode_len();
    let m: usize = from.unicode_len();
    if m == 0 {
        return String::from_str(text);
    }
    let mut result = String::new();
    let mut i: usize = 0;
    proof {
        assert(text@.skip(0) =~= text@);
        assert(result@ + replaced(text@, from@, to@) =~= replaced(text@, from@, to@));
    }
    while i < n
        invariant
            n == text@.len(),
            m == from@.len(),
            m > 0,
            i <= n,
            replaced(text@, from@, to@) == result@ + replaced(text@.skip(i as int), from@, to@),
        decreases n - i,
    {
        let ghost rest = text@.skip(i as int);
        let ghost before = result@;
        let found = m <= n - i && same_text(text.substring_char(i, i + m), from);
        proof {
            if m <= n - i {
                assert(text@.subrange(i as int, i + m) =~= rest.take(m as int));
            }
            assert(found == starts_with(rest, from@));
        }
        if found {
            result.append(to);
            proof {
                assert(rest.skip(m as int) =~= text@.skip(i + m));
                assert(before + (to@ + replaced(text@.skip(i + m), from@, to@)) =~= (before + to@)
                    + replaced(text@.skip(i + m), from@, to@));
            }
            i = i + m;
        } else {
            result.append(text.substring_char(i, i + 1));
            proof {
                assert(text@.subrange(i as int, i + 1) =~= seq![rest[0]]);
                assert(rest.skip(1) =~= text@.skip(i + 1));
                assert(before + (seq![rest[0]] + replaced(text@.skip(i + 1), from@, to@)) =~= (
                before + seq![rest[0]]) + replaced(text@.skip(i + 1), from@, to@));
            }
            i = i + 1;
        }
    }
    assert(text@.skip(n as int) =~= Seq::<char>::empty());
    assert(result@ + Seq::<char>::empty() =~= result@);
    result
}

} // verus!
