//! Characters, whitespace-separated tokens and lines: the text primitives
//! shared by the parsers.

use vstd::prelude::*;

verus! {

/// The characters that separate tokens: the Unicode `White_Space` property.
pub open spec fn is_space(c: char) -> bool {
    let n = c as u32;
    ||| 0x09 <= n <= 0x0d
    ||| n == 0x20
    ||| n == 0x85
    ||| n == 0xa0
    ||| n == 0x1680
    ||| 0x2000 <= n <= 0x200a
    ||| n == 0x2028
    ||| n == 0x2029
    ||| n == 0x202f
    ||| n == 0x205f
    ||| n == 0x3000
}

/// Tells whether `c` separates tokens.
pub fn is_whitespace(c: char) -> (r: bool)
    ensures
        r == is_space(c),
{
    let n: u32 = c as u32;
    (0x09 <= n && n <= 0x0d) || n == 0x20 || n == 0x85 || n == 0xa0 || n == 0x1680 || (0x2000 <= n
        && n <= 0x200a) || n == 0x2028 || n == 0x2029 || n == 0x202f || n == 0x205f || n == 0x3000
}

/// The characters of `s`, in order.
pub fn chars_of(s: &str) -> (r: Vec<char>)
    ensures
        r@ == s@,
{
    let mut out: Vec<char> = Vec::new();
    for c in it: s.chars()
        invariant
            out@ == it.seq().take(it.index() as int),
            it.seq() == s@,
    {
        out.push(c);
    }
    out
}

/// Tells whether two strings hold the same characters.
pub fn same_text(a: &str, b: &str) -> (r: bool)
    ensures
        r == (a@ == b@),
{
    let x = chars_of(a);
    let y = chars_of(b);
    if x.len() != y.len() {
        return false;
    }
    let mut i: usize = 0;
    while i < x.len()
        invariant
            i <= x.len(),
            x.len() == y.len(),
            x@ == a@,
            y@ == b@,
            forall|j: int| 0 <= j < i ==> x@[j] == y@[j],
        decreases x.len() - i,
    {
        if x[i] != y[i] {
            return false;
        }
        i += 1;
    }
    assert(a@ =~= b@);
    true
}

/// The characters of each string of `v`, in order.
pub open spec fn texts(v: Seq<String>) -> Seq<Seq<char>> {
    v.map_values(|t: String| t@)
}

/// Where the word that holds position `i` ends: the first index at or after
/// `i` that holds a separator, or the length of `s`.
pub open spec fn word_end(s: Seq<char>, i: int) -> int
    decreases s.len() - i,
{
    if 0 <= i < s.len() && !is_space(s[i]) {
        word_end(s, i + 1)
    } else {
        i
    }
}

/// `word_end` stays inside `s`, passes over no separator and stops on one.
pub proof fn lemma_word_end(s: Seq<char>, i: int)
    requires
        0 <= i <= s.len(),
    ensures
        i <= word_end(s, i) <= s.len(),
        forall|j: int| i <= j < word_end(s, i) ==> !is_space(#[trigger] s[j]),
        word_end(s, i) < s.len() ==> is_space(s[word_end(s, i)]),
        i < s.len() && !is_space(s[i]) ==> i < word_end(s, i),
    decreases s.len() - i,
{
    if i < s.len() && !is_space(s[i]) {
        lemma_word_end(s, i + 1);
    }
}

/// The whitespace-separated tokens of `s` that start at or after `i`.
pub open spec fn tokens_from(s: Seq<char>, i: int) -> Seq<Seq<char>>
    decreases s.len() - i,
{
    if i < 0 || i >= s.len() {
        Seq::empty()
    } else if is_space(s[i]) {
        tokens_from(s, i + 1)
    } else {
        proof {
            lemma_word_end(s, i);
        }
        seq![s.subrange(i, word_end(s, i))] + tokens_from(s, word_end(s, i))
    }
}

/// The whitespace-separated tokens of `s`: its maximal runs of characters
/// that are not separators, in order.
pub open spec fn tokens(s: Seq<char>) -> Seq<Seq<char>> {
    tokens_from(s, 0)
}

/// Splits `s` into its whitespace-separated tokens.
pub fn split_whitespace(s: &str) -> (r: Vec<String>)
    ensures
        texts(r@) == tokens(s@),
{
    let chars = chars_of(s);
    let n = chars.len();
    let mut out: Vec<String> = Vec::new();
    let mut i: usize = 0;
    assert(texts(out@) + tokens_from(s@, 0) =~= tokens(s@));
    while i < n
        invariant
            i <= n,
            n == chars.len(),
            chars@ == s@,
            texts(out@) + tokens_from(s@, i as int) == tokens(s@),
        decreases n - i,
    {
        if is_whitespace(chars[i]) {
            i += 1;
        } else {
            let mut j: usize = i + 1;
            while j < n && !is_whitespace(chars[j])
                invariant
                    i < j <= n,
                    n == chars.len(),
                    chars@ == s@,
                    word_end(s@, j as int) == word_end(s@, i as int),
                decreases n - j,
            {
                j += 1;
            }
            let word = String::from_str(s.substring_char(i, j));
            proof {
                let done = texts(out@);
                let rest = tokens_from(s@, j as int);
                assert(texts(out@.push(word)) =~= done.push(word@));
                assert(done.push(word@) + rest =~= done + (seq![word@] + rest));
            }
            out.push(word);
            i = j;
        }
    }
    assert(tokens_from(s@, i as int) =~= Seq::<Seq<char>>::empty());
    assert(texts(out@) + Seq::<Seq<char>>::empty() =~= texts(out@));
    out
}

/// The words of `t` with one space between two.
pub open spec fn join_words(t: Seq<Seq<char>>) -> Seq<char>
    decreases t.len(),
{
    if t.len() == 0 {
        Seq::empty()
    } else if t.len() == 1 {
        t[0]
    } else {
        join_words(t.drop_last()) + seq![' '] + t.last()
    }
}

/// Tells whether `w` can be a token: it is not empty and holds no separator.
pub open spec fn is_word(w: Seq<char>) -> bool {
    w.len() > 0 && forall|i: int| 0 <= i < w.len() ==> !is_space(#[trigger] w[i])
}

/// `word_end(s, i)` is the only index `j` from `i` on that is reached over
/// characters that are no separators and holds a separator or ends `s`.
pub proof fn lemma_word_end_is(s: Seq<char>, i: int, j: int)
    requires
        0 <= i <= j <= s.len(),
        forall|k: int| i <= k < j ==> !is_space(#[trigger] s[k]),
        j == s.len() || is_space(s[j]),
    ensures
        word_end(s, i) == j,
    decreases j - i,
{
    if i < j {
        lemma_word_end_is(s, i + 1, j);
    }
}

/// A word put behind `s` and one space adds itself to the tokens of `s`.
pub proof fn lemma_tokens_append_word(s: Seq<char>, w: Seq<char>, i: int)
    requires
        is_word(w),
        0 <= i <= s.len(),
    ensures
        tokens_from(s + seq![' '] + w, i) == tokens_from(s, i).push(w),
    decreases s.len() - i,
{
    let x = s + seq![' '] + w;
    let n = s.len() as int;
    if i == n {
        assert(is_space(x[n]));
        assert forall|k: int| n + 1 <= k < x.len() implies !is_space(#[trigger] x[k]) by {
            assert(x[k] == w[k - n - 1]);
        }
        assert(x[n + 1] == w[0]);
        lemma_word_end_is(x, n + 1, x.len() as int);
        assert(x.subrange(n + 1, x.len() as int) =~= w);
        assert(tokens_from(x, x.len() as int) =~= Seq::<Seq<char>>::empty());
        assert(tokens_from(x, n + 1) =~= seq![w]);
        assert(tokens_from(s, n) =~= Seq::<Seq<char>>::empty());
        assert(tokens_from(s, n).push(w) =~= seq![w]);
    } else {
        assert(x[i] == s[i]);
        if is_space(s[i]) {
            lemma_tokens_append_word(s, w, i + 1);
        } else {
            lemma_word_end(s, i);
            let e = word_end(s, i);
            assert forall|k: int| i <= k < e implies !is_space(#[trigger] x[k]) by {
                assert(x[k] == s[k]);
            }
            if e < n {
                assert(x[e] == s[e]);
            } else {
                assert(x[e] == ' ');
            }
            lemma_word_end_is(x, i, e);
            assert(x.subrange(i, e) =~= s.subrange(i, e));
            lemma_tokens_append_word(s, w, e);
            assert(seq![s.subrange(i, e)] + tokens_from(s, e).push(w) =~= (seq![s.subrange(i, e)]
                + tokens_from(s, e)).push(w));
        }
    }
}

/// Splitting undoes joining: the tokens of words joined by single spaces
/// are those words.
pub proof fn law_tokens_of_joined_words(words: Seq<Seq<char>>)
    requires
        forall|i: int| 0 <= i < words.len() ==> is_word(#[trigger] words[i]),
    ensures
        tokens(join_words(words)) == words,
    decreases words.len(),
{
    if words.len() == 0 {
        assert(tokens_from(Seq::<char>::empty(), 0) =~= words);
    } else if words.len() == 1 {
        let w = words[0];
        assert(is_word(w));
        lemma_word_end_is(w, 0, w.len() as int);
        assert(w.subrange(0, w.len() as int) =~= w);
        assert(tokens_from(w, w.len() as int) =~= Seq::<Seq<char>>::empty());
        assert(tokens_from(w, 0) =~= seq![w]);
        assert(seq![w] =~= words);
    } else {
        let front = words.drop_last();
        assert forall|i: int| 0 <= i < front.len() implies is_word(#[trigger] front[i]) by {
            assert(front[i] == words[i]);
        }
        law_tokens_of_joined_words(front);
        assert(is_word(words.last()));
        lemma_tokens_append_word(join_words(front), words.last(), 0);
        assert(front.push(words.last()) =~= words);
    }
}

/// Where the line that holds position `i` ends: the first index at or after
/// `i` that holds a line feed, or the length of `s`.
pub open spec fn line_end(s: Seq<char>, i: int) -> int
    decreases s.len() - i,
{
    if 0 <= i < s.len() && s[i] != '\n' {
        line_end(s, i + 1)
    } else {
        i
    }
}

/// `line_end` stays inside `s`, passes over no line feed and stops on one.
pub proof fn lemma_line_end(s: Seq<char>, i: int)
    requires
        0 <= i <= s.len(),
    ensures
        i <= line_end(s, i) <= s.len(),
        forall|j: int| i <= j < line_end(s, i) ==> #[trigger] s[j] != '\n',
        line_end(s, i) < s.len() ==> s[line_end(s, i)] == '\n',
    decreases s.len() - i,
{
    if i < s.len() && s[i] != '\n' {
        lemma_line_end(s, i + 1);
    }
}

/// The lines of `s` that start at or after `i`.
pub open spec fn lines_from(s: Seq<char>, i: int) -> Seq<Seq<char>>
    decreases s.len() - i,
{
    if i < 0 || i >= s.len() {
        Seq::empty()
    } else {
        proof {
            lemma_line_end(s, i);
        }
        let e = line_end(s, i);
        if e >= s.len() {
            seq![s.subrange(i, e)]
        } else {
            seq![s.subrange(i, e)] + lines_from(s, e + 1)
        }
    }
}

/// The lines of `s`: the pieces between line feeds, without the line feeds.
/// A line feed at the very end closes the last line and opens no new one.
pub open spec fn lines(s: Seq<char>) -> Seq<Seq<char>> {
    lines_from(s, 0)
}

/// Splits `s` into its lines.
pub fn split_lines(s: &str) -> (r: Vec<String>)
    ensures
        texts(r@) == lines(s@),
{
    let chars = chars_of(s);
    let n = chars.len();
    let mut out: Vec<String> = Vec::new();
    let mut i: usize = 0;
    assert(texts(out@) + lines_from(s@, 0) =~= lines(s@));
    while i < n
        invariant
            i <= n,
            n == chars.len(),
            chars@ == s@,
            texts(out@) + lines_from(s@, i as int) == lines(s@),
        decreases n - i,
    {
        let mut j: usize = i;
        while j < n && chars[j] != '\n'
            invariant
                i <= j <= n,
                n == chars.len(),
                chars@ == s@,
                line_end(s@, j as int) == line_end(s@, i as int),
            decreases n - j,
        {
            j += 1;
        }
        let line = String::from_str(s.substring_char(i, j));
        proof {
            let done = texts(out@);
            let rest = if j == n {
                Seq::<Seq<char>>::empty()
            } else {
                lines_from(s@, j as int + 1)
            };
            assert(texts(out@.push(line)) =~= done.push(line@));
            assert(done.push(line@) + rest =~= done + (seq![line@] + rest));
            assert(seq![line@] + Seq::<Seq<char>>::empty() =~= seq![line@]);
        }
        out.push(line);
        i = if j == n {
            n
        } else {
            j + 1
        };
    }
    assert(lines_from(s@, i as int) =~= Seq::<Seq<char>>::empty());
    assert(texts(out@) + Seq::<Seq<char>>::empty() =~= texts(out@));
    out
}

/// A separator at the end of `s` adds nothing to its tokens.
pub proof fn lemma_tokens_ignore_final_space(s: Seq<char>, c: char, i: int)
    requires
        is_space(c),
        0 <= i <= s.len(),
    ensures
        tokens_from(s.push(c), i) == tokens_from(s, i),
    decreases s.len() - i,
{
    let x = s.push(c);
    let n = s.len() as int;
    if i == n {
        assert(tokens_from(x, n + 1) =~= Seq::<Seq<char>>::empty());
    } else {
        assert(x[i] == s[i]);
        if is_space(s[i]) {
            lemma_tokens_ignore_final_space(s, c, i + 1);
        } else {
            lemma_word_end(s, i);
            let e = word_end(s, i);
            assert forall|k: int| i <= k < e implies !is_space(#[trigger] x[k]) by {
                assert(x[k] == s[k]);
            }
            if e < n {
                assert(x[e] == s[e]);
            }
            lemma_word_end_is(x, i, e);
            assert(x.subrange(i, e) =~= s.subrange(i, e));
            lemma_tokens_ignore_final_space(s, c, e);
        }
    }
}

/// `line_end(s, i)` is the only index `j` from `i` on that is reached over
/// characters that are no line feeds and holds a line feed or ends `s`.
pub proof fn lemma_line_end_is(s: Seq<char>, i: int, j: int)
    requires
        0 <= i <= j <= s.len(),
        forall|k: int| i <= k < j ==> #[trigger] s[k] != '\n',
        j == s.len() || s[j] == '\n',
    ensures
        line_end(s, i) == j,
    decreases j - i,
{
    if i < j {
        lemma_line_end_is(s, i + 1, j);
    }
}

/// What stands in front of `s` does not change the lines of `s`.
pub proof fn lemma_lines_after_prefix(p: Seq<char>, s: Seq<char>, i: int)
    requires
        0 <= i <= s.len(),
    ensures
        lines_from(p + s, p.len() + i) == lines_from(s, i),
    decreases s.len() - i,
{
    let x = p + s;
    let m = p.len() as int;
    if i < s.len() {
        lemma_line_end(s, i);
        let e = line_end(s, i);
        assert forall|k: int| m + i <= k < m + e implies #[trigger] x[k] != '\n' by {
            assert(x[k] == s[k - m]);
        }
        if e < s.len() {
            assert(x[m + e] == s[e]);
        }
        lemma_line_end_is(x, m + i, m + e);
        assert(x.subrange(m + i, m + e) =~= s.subrange(i, e));
        if e < s.len() {
            lemma_lines_after_prefix(p, s, e + 1);
        }
    }
}

/// The texts `texts`, each with a line feed behind it.
pub open spec fn fed(texts: Seq<Seq<char>>) -> Seq<Seq<char>> {
    Seq::new(texts.len(), |i: int| texts[i] + seq!['\n'])
}

/// The lines `lines`, one after the other.
pub open spec fn concat(lines: Seq<Seq<char>>) -> Seq<char>
    decreases lines.len(),
{
    if lines.len() == 0 {
        Seq::empty()
    } else {
        lines[0] + concat(lines.drop_first())
    }
}

/// Tells whether no text of `texts` holds a line feed.
pub open spec fn no_line_feeds(texts: Seq<Seq<char>>) -> bool {
    forall|i: int, k: int|
        0 <= i < texts.len() && 0 <= k < texts[i].len() ==> (#[trigger] texts[i][k]) != '\n'
}

/// Splitting undoes feeding: texts without line feeds, written one after
/// the other with a line feed behind each, are the lines of what was
/// written.
pub proof fn law_lines_of_fed_texts(texts: Seq<Seq<char>>)
    requires
        no_line_feeds(texts),
    ensures
        lines(concat(fed(texts))) == texts,
    decreases texts.len(),
{
    let s = concat(fed(texts));
    if texts.len() == 0 {
        assert(lines_from(s, 0) =~= texts);
    } else {
        let t = texts[0];
        let p = t + seq!['\n'];
        let rest = texts.drop_first();
        assert(fed(texts)[0] == p);
        assert(fed(texts).drop_first() =~= fed(rest));
        let tail = concat(fed(rest));
        assert(s == p + tail);
        assert forall|i: int, k: int| 0 <= i < rest.len() && 0 <= k < rest[i].len() implies (
        #[trigger] rest[i][k]) != '\n' by {
            assert(rest[i][k] == texts[i + 1][k]);
        }
        law_lines_of_fed_texts(rest);
        let e = t.len() as int;
        assert forall|k: int| 0 <= k < e implies #[trigger] s[k] != '\n' by {
            assert(s[k] == texts[0][k]);
        }
        assert(s[e] == '\n');
        lemma_line_end_is(s, 0, e);
        assert(s.subrange(0, e) =~= t);
        lemma_lines_after_prefix(p, tail, 0);
        assert(lines_from(s, e + 1) == rest);
        if e + 1 >= s.len() {
            assert(tail.len() == 0);
            assert(lines_from(tail, 0) =~= Seq::<Seq<char>>::empty());
            assert(seq![t] =~= texts);
        } else {
            assert(seq![t] + rest =~= texts);
        }
    }
}

/// `String::push`: puts `c` at the end of `s`.
#[verifier::external_body]
pub(crate) fn push_char(s: &mut String, c: char)
    ensures
        final(s)@ == old(s)@.push(c),
{
    s.push(c);
}

} // verus!
