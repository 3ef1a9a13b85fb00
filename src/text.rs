//! The text normalizer and tokenizer.
//!
//! Normalizing a text takes three steps: contractions are expanded
//! (`'s`, `'d`, `'ll` after an apostrophe become ` is`, ` had`, ` will`),
//! every character that is neither an ASCII letter nor white space is
//! removed, and the ASCII capitals are lowered. The tokenizer then splits
//! the result on runs of white space.
use vstd::prelude::*;

verus! {

/// Unicode's `White_Space` property, the white space of Rust's
/// `char::is_whitespace` and of the `\s` class of regular expressions.
pub open spec fn is_white_space(c: char) -> bool {
    let u = c as u32;
    ||| 0x09 <= u <= 0x0D
    ||| u == 0x20
    ||| u == 0x85
    ||| u == 0xA0
    ||| u == 0x1680
    ||| 0x2000 <= u <= 0x200A
    ||| u == 0x2028
    ||| u == 0x2029
    ||| u == 0x202F
    ||| u == 0x205F
    ||| u == 0x3000
}

pub open spec fn is_ascii_upper(c: char) -> bool {
    'A' <= c <= 'Z'
}

pub open spec fn is_ascii_lower(c: char) -> bool {
    'a' <= c <= 'z'
}

pub open spec fn is_ascii_letter(c: char) -> bool {
    is_ascii_upper(c) || is_ascii_lower(c)
}

/// The apostrophes that may introduce a contraction: the ASCII one and
/// the right single quotation mark.
pub open spec fn is_apostrophe(c: char) -> bool {
    c == '\'' || c == '\u{2019}'
}

/// The lower-case form of an ASCII capital; any other character is kept.
pub open spec fn ascii_lower(c: char) -> char {
    if is_ascii_upper(c) {
        ((c as u8) + 32) as u8 as char
    } else {
        c
    }
}

/// How many characters at the head of `s` form a contraction suffix:
/// 1 for `s` or `d`, 2 for `ll`, 0 where none starts there.
pub open spec fn suffix_len(s: Seq<char>) -> nat {
    if s.len() >= 1 && (s[0] == 's' || s[0] == 'd') {
        1
    } else if s.len() >= 2 && s[0] == 'l' && s[1] == 'l' {
        2
    } else {
        0
    }
}

/// What replaces an apostrophe and the suffix after it. A suffix other
/// than the three known ones becomes the placeholder `<unk>`.
pub open spec fn expansion(suffix: Seq<char>) -> Seq<char> {
    if suffix == seq!['s'] {
        seq![' ', 'i', 's']
    } else if suffix == seq!['d'] {
        seq![' ', 'h', 'a', 'd']
    } else if suffix == seq!['l', 'l'] {
        seq![' ', 'w', 'i', 'l', 'l']
    } else {
        seq!['<', 'u', 'n', 'k', '>']
    }
}

/// `s` with each contraction replaced, scanning from the left; the text
/// put in is not scanned again.
pub open spec fn expand_contractions(s: Seq<char>) -> Seq<char>
    decreases s.len(),
{
    if s.len() == 0 {
        s
    } else if is_apostrophe(s[0]) && suffix_len(s.skip(1)) > 0 {
        let n = suffix_len(s.skip(1)) as int;
        expansion(s.subrange(1, 1 + n)) + expand_contractions(s.skip(1 + n))
    } else {
        seq![s[0]] + expand_contractions(s.skip(1))
    }
}

/// The characters that survive the second step.
pub open spec fn is_kept(c: char) -> bool {
    is_ascii_letter(c) || is_white_space(c)
}

/// `s` without the characters that are neither ASCII letters nor white space.
pub open spec fn strip_non_letters(s: Seq<char>) -> Seq<char> {
    s.filter(|c: char| is_kept(c))
}

/// `s` with every ASCII capital lowered.
pub open spec fn lower_ascii(s: Seq<char>) -> Seq<char> {
    s.map_values(|c: char| ascii_lower(c))
}

/// The normalized form of a text.
pub open spec fn normalized(s: Seq<char>) -> Seq<char> {
    lower_ascii(strip_non_letters(expand_contractions(s)))
}

/// The maximal runs of characters other than white space in `s`, in order.
/// Read from the left: a character that is not white space either extends
/// the token that the character before it belongs to, or starts a new one.
pub open spec fn tokens_of(s: Seq<char>) -> Seq<Seq<char>>
    decreases s.len(),
{
    if s.len() == 0 {
        Seq::empty()
    } else {
        let prev = tokens_of(s.drop_last());
        let c = s.last();
        if is_white_space(c) {
            prev
        } else if s.len() >= 2 && !is_white_space(s[s.len() - 2]) {
            prev.drop_last().push(prev.last().push(c))
        } else {
            prev.push(seq![c])
        }
    }
}

/// Appends one character to a string.
///
/// Relies on `String::push`: the character is added at the end.
#[verifier::external_body]
pub(crate) fn push_char(s: &mut String, c: char)
    ensures
        final(s)@ == old(s)@.push(c),
{
    s.push(c);
}

/// The characters of `s`, one per element.
pub fn chars_of(s: &str) -> (r: Vec<char>)
    ensures
        r@ == s@,
{
    let mut v: Vec<char> = Vec::new();
    for c in it: s.chars()
        invariant
            v@ == it.seq().take(it.index() as int),
    {
        v.push(c);
    }
    v
}

/// The string made of the characters of `v`.
fn string_of(v: &Vec<char>) -> (r: String)
    ensures
        r@ == v@,
{
    let mut s = String::new();
    let mut i: usize = 0;
    while i < v.len()
        invariant
            i <= v.len(),
            s@ == v@.take(i as int),
        decreases v.len() - i,
    {
        push_char(&mut s, v[i]);
        i = i + 1;
        assert(s@ =~= v@.take(i as int));
    }
    assert(v@.take(v.len() as int) =~= v@);
    s
}

fn check_white_space(c: char) -> (r: bool)
    ensures
        r == is_white_space(c),
{
    let u = c as u32;
    (0x09 <= u && u <= 0x0D) || u == 0x20 || u == 0x85 || u == 0xA0 || u == 0x1680 || (0x2000
        <= u && u <= 0x200A) || u == 0x2028 || u == 0x2029 || u == 0x202F || u == 0x205F || u
        == 0x3000
}

fn check_kept(c: char) -> (r: bool)
    ensures
        r == is_kept(c),
{
    ('A' <= c && c <= 'Z') || ('a' <= c && c <= 'z') || check_white_space(c)
}

fn lower_char(c: char) -> (r: char)
    ensures
        r == ascii_lower(c),
{
    if 'A' <= c && c <= 'Z' {
        ((c as u8) + 32) as char
    } else {
        c
    }
}

/// The length of the contraction suffix that starts at index `i` of `v`.
fn suffix_len_at(v: &Vec<char>, i: usize) -> (n: usize)
    requires
        i <= v.len(),
    ensures
        n == suffix_len(v@.skip(i as int)),
        i + n <= v.len(),
{
    if i < v.len() && (v[i] == 's' || v[i] == 'd') {
        1
    } else if v.len() - i >= 2 && v[i] == 'l' && v[i + 1] == 'l' {
        2
    } else {
        0
    }
}

/// Pushes what replaces an apostrophe and the `n` characters of `v` from `start`.
fn push_expansion(out: &mut Vec<char>, v: &Vec<char>, start: usize, n: usize)
    requires
        start + n <= v.len(),
    ensures
        final(out)@ == old(out)@ + expansion(v@.subrange(start as int, start + n)),
{
    let ghost suffix = v@.subrange(start as int, start + n);
    let ghost before = out@;
    if n == 1 && v[start] == 's' {
        assert(suffix =~= seq!['s']);
        out.push(' ');
        out.push('i');
        out.push('s');
        assert(out@ =~= before + seq![' ', 'i', 's']);
    } else if n == 1 && v[start] == 'd' {
        assert(suffix =~= seq!['d']);
        assert(suffix[0] != seq!['s'][0]);
        out.push(' ');
        out.push('h');
        out.push('a');
        out.push('d');
        assert(out@ =~= before + seq![' ', 'h', 'a', 'd']);
        assert(expansion(suffix) == seq![' ', 'h', 'a', 'd']);
    } else if n == 2 && v[start] == 'l' && v[start + 1] == 'l' {
        assert(suffix =~= seq!['l', 'l']);
        out.push(' ');
        out.push('w');
        out.push('i');
        out.push('l');
        out.push('l');
        assert(out@ =~= before + seq![' ', 'w', 'i', 'l', 'l']);
    } else {
        assert(suffix != seq!['s'] && suffix != seq!['d'] && suffix != seq!['l', 'l']) by {
            assert(seq!['s'][0] == 's' && seq!['d'][0] == 'd' && seq!['l', 'l'][1] == 'l');
            assert(suffix.len() == n);
            if n == 1 {
                assert(suffix[0] == v@[start as int]);
            } else if n == 2 {
                assert(suffix[0] == v@[start as int]);
                assert(suffix[1] == v@[start + 1]);
            }
        }
        out.push('<');
        out.push('u');
        out.push('n');
        out.push('k');
        out.push('>');
        assert(out@ =~= before + seq!['<', 'u', 'n', 'k', '>']);
    }
}

/// The first step of normalizing: contractions expanded.
pub fn expand_contractions_of(v: &Vec<char>) -> (r: Vec<char>)
    ensures
        r@ == expand_contractions(v@),
{
    let mut out: Vec<char> = Vec::new();
    let mut i: usize = 0;
    assert(v@.skip(0) =~= v@);
    while i < v.len()
        invariant
            i <= v.len(),
            out@ + expand_contractions(v@.skip(i as int)) == expand_contractions(v@),
        decreases v.len() - i,
    {
        let ghost rest = v@.skip(i as int);
        let ghost before = out@;
        assert(rest.skip(1) =~= v@.skip(i + 1));
        let c = v[i];
        let n = suffix_len_at(v, i + 1);
        if (c == '\'' || c == '\u{2019}') && n > 0 {
            assert(rest.subrange(1, 1 + n) =~= v@.subrange(i + 1, i + 1 + n));
            assert(rest.skip(1 + n) =~= v@.skip(i + 1 + n));
            push_expansion(&mut out, v, i + 1, n);
            i = i + 1 + n;
            assert(out@ + expand_contractions(v@.skip(i as int)) =~= before + expand_contractions(
                rest,
            ));
        } else {
            out.push(c);
            i = i + 1;
            assert(out@ + expand_contractions(v@.skip(i as int)) =~= before + expand_contractions(
                rest,
            ));
        }
    }
    assert(expand_contractions(v@.skip(i as int)) =~= Seq::empty());
    assert(out@ =~= out@ + expand_contractions(v@.skip(i as int)));
    out
}

/// The second step of normalizing: only ASCII letters and white space kept.
pub fn strip_non_letters_of(v: &Vec<char>) -> (r: Vec<char>)
    ensures
        r@ == strip_non_letters(v@),
{
    let mut out: Vec<char> = Vec::new();
    let mut i: usize = 0;
    while i < v.len()
        invariant
            i <= v.len(),
            out@ == strip_non_letters(v@.take(i as int)),
        decreases v.len() - i,
    {
        assert(v@.take(i + 1).drop_last() =~= v@.take(i as int));
        assert(v@.take(i + 1).last() == v@[i as int]);
        proof {
            reveal(Seq::filter);
        }
        if check_kept(v[i]) {
            out.push(v[i]);
        }
        i = i + 1;
    }
    assert(v@.take(v.len() as int) =~= v@);
    out
}

/// The third step of normalizing: ASCII capitals lowered.
pub fn lower_ascii_of(v: &Vec<char>) -> (r: Vec<char>)
    ensures
        r@ == lower_ascii(v@),
{
    let mut out: Vec<char> = Vec::new();
    let mut i: usize = 0;
    while i < v.len()
        invariant
            i <= v.len(),
            out@ == lower_ascii(v@.take(i as int)),
        decreases v.len() - i,
    {
        out.push(lower_char(v[i]));
        i = i + 1;
        assert(out@ =~= lower_ascii(v@.take(i as int)));
    }
    assert(v@.take(v.len() as int) =~= v@);
    out
}

/// Normalizes a text: contractions expanded, everything but ASCII letters
/// and white space removed, and the result lowered.
pub fn clean_text(text: &str) -> (r: String)
    ensures
        r@ == normalized(text@),
        forall|i: int|
            0 <= i < r@.len() ==> is_ascii_lower(#[trigger] r@[i]) || is_white_space(r@[i]),
{
    proof {
        lemma_normalized_charset(text@);
    }
    let chars = chars_of(text);
    let expanded = expand_contractions_of(&chars);
    let stripped = strip_non_letters_of(&expanded);
    let lowered = lower_ascii_of(&stripped);
    string_of(&lowered)
}

/// The views of a sequence of strings.
pub open spec fn views_of(v: Seq<String>) -> Seq<Seq<char>> {
    v.map_values(|t: String| t@)
}

/// Splits a text on runs of white space into its non-empty tokens.
pub fn tokenize(text: &str) -> (r: Vec<String>)
    ensures
        views_of(r@) == tokens_of(text@),
{
    let v = chars_of(text);
    let mut tokens: Vec<String> = Vec::new();
    let mut cur = String::new();
    let mut i: usize = 0;
    while i < v.len()
        invariant
            i <= v.len(),
            v@ == text@,
            if i > 0 && !is_white_space(v@[i - 1]) {
                cur@.len() > 0 && tokens_of(v@.take(i as int)) == views_of(tokens@).push(cur@)
            } else {
                cur@.len() == 0 && tokens_of(v@.take(i as int)) == views_of(tokens@)
            },
        decreases v.len() - i,
    {
        let c = v[i];
        let ghost prefix = v@.take(i + 1);
        assert(prefix.drop_last() =~= v@.take(i as int));
        assert(prefix.last() == c);
        if check_white_space(c) {
            if !cur.as_str().is_empty() {
                let ghost done = views_of(tokens@);
                tokens.push(cur);
                cur = String::new();
                assert(views_of(tokens@) =~= done.push(tokens@.last()@));
            }
        } else {
            let ghost before = cur@;
            push_char(&mut cur, c);
            proof {
                let done = views_of(tokens@);
                if i > 0 && !is_white_space(v@[i - 1]) {
                    assert(prefix[prefix.len() - 2] == v@[i - 1]);
                    assert(done.push(before).drop_last() =~= done);
                } else {
                    if i > 0 {
                        assert(prefix[prefix.len() - 2] == v@[i - 1]);
                    }
                    assert(cur@ =~= seq![c]);
                }
            }
        }
        i = i + 1;
    }
    assert(v@.take(v.len() as int) =~= v@);
    if !cur.as_str().is_empty() {
        let ghost done = views_of(tokens@);
        tokens.push(cur);
        assert(views_of(tokens@) =~= done.push(tokens@.last()@));
    }
    tokens
}

/// A text without apostrophes has no contraction to expand.
pub proof fn lemma_expand_without_apostrophes(s: Seq<char>)
    requires
        forall|i: int| 0 <= i < s.len() ==> !is_apostrophe(#[trigger] s[i]),
    ensures
        expand_contractions(s) == s,
    decreases s.len(),
{
    if s.len() > 0 {
        assert(!is_apostrophe(s[0]));
        assert forall|i: int| 0 <= i < s.skip(1).len() implies !is_apostrophe(
            #[trigger] s.skip(1)[i],
        ) by {
            assert(s.skip(1)[i] == s[i + 1]);
        }
        lemma_expand_without_apostrophes(s.skip(1));
        assert(seq![s[0]] + s.skip(1) =~= s);
    }
}

/// Removing characters keeps a text whose characters all survive.
pub proof fn lemma_strip_kept(s: Seq<char>)
    requires
        forall|i: int| 0 <= i < s.len() ==> is_kept(#[trigger] s[i]),
    ensures
        strip_non_letters(s) == s,
    decreases s.len(),
{
    reveal(Seq::filter);
    if s.len() > 0 {
        assert forall|i: int| 0 <= i < s.drop_last().len() implies is_kept(
            #[trigger] s.drop_last()[i],
        ) by {
            assert(s.drop_last()[i] == s[i]);
        }
        lemma_strip_kept(s.drop_last());
        assert(is_kept(s[s.len() - 1]));
        assert(s.drop_last().push(s.last()) =~= s);
    }
}

/// Every character of a normalized text is a lower-case ASCII letter or
/// white space: no digit, punctuation or capital is left.
pub proof fn lemma_normalized_charset(s: Seq<char>)
    ensures
        forall|i: int|
            0 <= i < normalized(s).len() ==> is_ascii_lower(#[trigger] normalized(s)[i])
                || is_white_space(normalized(s)[i]),
{
    broadcast use Seq::lemma_filter_pred;

    let stripped = strip_non_letters(expand_contractions(s));
    assert forall|i: int| 0 <= i < normalized(s).len() implies is_ascii_lower(
        #[trigger] normalized(s)[i],
    ) || is_white_space(normalized(s)[i]) by {
        assert(is_kept(stripped[i]));
        assert(normalized(s)[i] == ascii_lower(stripped[i]));
    }
}

/// Normalizing a normalized text changes nothing.
pub proof fn lemma_normalized_idempotent(s: Seq<char>)
    ensures
        normalized(normalized(s)) == normalized(s),
{
    let t = normalized(s);
    lemma_normalized_charset(s);
    assert forall|i: int| 0 <= i < t.len() implies !is_apostrophe(#[trigger] t[i]) by {
        assert(is_ascii_lower(t[i]) || is_white_space(t[i]));
    }
    lemma_expand_without_apostrophes(t);
    assert forall|i: int| 0 <= i < t.len() implies is_kept(#[trigger] t[i]) by {
        assert(is_ascii_lower(t[i]) || is_white_space(t[i]));
    }
    lemma_strip_kept(t);
    assert forall|i: int| 0 <= i < t.len() implies ascii_lower(#[trigger] t[i]) == t[i] by {
        assert(is_ascii_lower(t[i]) || is_white_space(t[i]));
    }
    assert(lower_ascii(t) =~= t);
}

/// `t` is non-empty, holds no white space, and every character of it
/// occurs in `s`.
pub open spec fn is_word_of(t: Seq<char>, s: Seq<char>) -> bool {
    &&& t.len() > 0
    &&& forall|j: int| 0 <= j < t.len() ==> !is_white_space(#[trigger] t[j]) && s.contains(t[j])
}

/// Every token of `s` is a non-empty run of characters of `s` without
/// white space.
pub proof fn lemma_tokens_are_words(s: Seq<char>)
    ensures
        forall|i: int| 0 <= i < tokens_of(s).len() ==> is_word_of(#[trigger] tokens_of(s)[i], s),
    decreases s.len(),
{
    if s.len() > 0 {
        let init = s.drop_last();
        let prev = tokens_of(init);
        let c = s.last();
        lemma_tokens_are_words(init);
        assert(s.contains(c)) by {
            assert(s[s.len() - 1] == c);
        }
        assert forall|i: int| 0 <= i < prev.len() implies is_word_of(#[trigger] prev[i], s) by {
            let t = prev[i];
            assert(is_word_of(t, init));
            assert forall|j: int| 0 <= j < t.len() implies s.contains(#[trigger] t[j]) by {
                let k = choose|k: int| 0 <= k < init.len() && init[k] == t[j];
                assert(s[k] == t[j]);
            }
        }
        if !is_white_space(c) {
            if s.len() >= 2 && !is_white_space(s[s.len() - 2]) {
                assert(init.len() > 0 && init.last() == s[s.len() - 2]);
                if prev.len() > 0 {
                    let t = prev.last().push(c);
                    assert(is_word_of(prev.last(), s));
                    assert forall|j: int| 0 <= j < t.len() implies !is_white_space(#[trigger] t[j])
                        && s.contains(t[j]) by {
                        if j < t.len() - 1 {
                            assert(t[j] == prev.last()[j]);
                        }
                    }
                    assert(is_word_of(t, s));
                    let next = prev.drop_last().push(t);
                    assert forall|i: int| 0 <= i < next.len() implies is_word_of(
                        #[trigger] next[i],
                        s,
                    ) by {
                        if i < next.len() - 1 {
                            assert(next[i] == prev[i]);
                        }
                    }
                }
            } else {
                let t = seq![c];
                assert(is_word_of(t, s));
                let next = prev.push(t);
                assert forall|i: int| 0 <= i < next.len() implies is_word_of(#[trigger] next[i], s) by {
                    if i < next.len() - 1 {
                        assert(next[i] == prev[i]);
                    }
                }
            }
        }
    }
}

/// The tokens of a normalized text are non-empty words of lower-case ASCII
/// letters.
pub proof fn lemma_normalized_tokens_are_lowercase_words(s: Seq<char>)
    ensures
        forall|i: int|
            0 <= i < tokens_of(normalized(s)).len() ==> (#[trigger] tokens_of(normalized(s))[i]).len()
                > 0,
        forall|i: int, j: int|
            0 <= i < tokens_of(normalized(s)).len() && 0 <= j < tokens_of(normalized(s))[i].len()
                ==> is_ascii_lower(#[trigger] tokens_of(normalized(s))[i][j]),
{
    let n = normalized(s);
    lemma_normalized_charset(s);
    lemma_tokens_are_words(n);
    assert forall|i: int, j: int|
        0 <= i < tokens_of(n).len() && 0 <= j < tokens_of(n)[i].len() implies is_ascii_lower(
        #[trigger] tokens_of(n)[i][j],
    ) by {
        let t = tokens_of(n)[i];
        assert(is_word_of(t, n));
        assert(!is_white_space(t[j]) && n.contains(t[j]));
        let k = choose|k: int| 0 <= k < n.len() && n[k] == t[j];
        assert(is_ascii_lower(n[k]) || is_white_space(n[k]));
    }
    assert forall|i: int| 0 <= i < tokens_of(n).len() implies (#[trigger] tokens_of(n)[i]).len()
        > 0 by {
        assert(is_word_of(tokens_of(n)[i], n));
    }
}

} // verus!
