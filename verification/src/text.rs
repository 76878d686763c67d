//! Text: white space, words, decimal numbers, byte order and UTF-8.

use vstd::prelude::*;
use vstd::utf8::*;

verus! {

/// Whether `c` has the Unicode property White_Space.
pub open spec fn is_white_space(c: char) -> bool {
    let u = c as u32;
    ||| 0x09 <= u <= 0x0d
    ||| u == 0x20
    ||| u == 0x85
    ||| u == 0xa0
    ||| u == 0x1680
    ||| 0x2000 <= u <= 0x200a
    ||| u == 0x2028
    ||| u == 0x2029
    ||| u == 0x202f
    ||| u == 0x205f
    ||| u == 0x3000
}

/// Tells white space from other characters.
pub fn white_space(c: char) -> (res: bool)
    ensures
        res == is_white_space(c),
{
    let u: u32 = c as u32;
    (0x09 <= u && u <= 0x0d) || u == 0x20 || u == 0x85 || u == 0xa0 || u == 0x1680 || (0x2000 <= u
        && u <= 0x200a) || u == 0x2028 || u == 0x2029 || u == 0x202f || u == 0x205f || u == 0x3000
}

/// `s` without its leading white space.
pub open spec fn trimmed_start(s: Seq<char>) -> Seq<char>
    decreases s.len(),
{
    if s.len() > 0 && is_white_space(s[0]) {
        trimmed_start(s.drop_first())
    } else {
        s
    }
}

/// `s` without its trailing white space.
pub open spec fn trimmed_end(s: Seq<char>) -> Seq<char>
    decreases s.len(),
{
    if s.len() > 0 && is_white_space(s.last()) {
        trimmed_end(s.drop_last())
    } else {
        s
    }
}

/// `s` without white space at either end.
pub open spec fn trimmed(s: Seq<char>) -> Seq<char> {
    trimmed_end(trimmed_start(s))
}

/// The number of characters before the first white space of `s`.
pub open spec fn word_len(s: Seq<char>) -> nat
    decreases s.len(),
{
    if s.len() == 0 || is_white_space(s[0]) {
        0
    } else {
        1 + word_len(s.drop_first())
    }
}

/// `word_len` never leaves the text.
pub proof fn lemma_word_len(s: Seq<char>)
    ensures
        word_len(s) <= s.len(),
        s.len() > 0 && !is_white_space(s[0]) ==> word_len(s) > 0,
    decreases s.len(),
{
    if s.len() > 0 && !is_white_space(s[0]) {
        lemma_word_len(s.drop_first());
    }
}

/// The maximal runs of characters that are not white space, in order.
pub open spec fn words(s: Seq<char>) -> Seq<Seq<char>>
    decreases s.len(),
{
    if s.len() == 0 {
        Seq::empty()
    } else if is_white_space(s[0]) {
        words(s.drop_first())
    } else {
        proof {
            lemma_word_len(s);
        }
        seq![s.take(word_len(s) as int)] + words(s.skip(word_len(s) as int))
    }
}

/// The texts that a vector of strings holds.
pub open spec fn texts(v: Seq<String>) -> Seq<Seq<char>> {
    v.map_values(|s: String| s@)
}

/// `trimmed_end` keeps a prefix that does not end in white space.
proof fn lemma_trimmed_end(s: Seq<char>)
    ensures
        trimmed_end(s).len() <= s.len(),
        trimmed_end(s) == s.take(trimmed_end(s).len() as int),
        trimmed_end(s).len() > 0 ==> !is_white_space(trimmed_end(s).last()),
        s.len() > 0 && !is_white_space(s[0]) ==> trimmed_end(s).len() > 0,
    decreases s.len(),
{
    if s.len() > 0 && is_white_space(s.last()) {
        lemma_trimmed_end(s.drop_last());
        assert(trimmed_end(s) =~= s.take(trimmed_end(s).len() as int));
        if !is_white_space(s[0]) {
            assert(s.drop_last()[0] == s[0]);
        }
    } else {
        assert(trimmed_end(s) =~= s.take(s.len() as int));
    }
}

/// `trimmed_start` leaves no white space at the start.
proof fn lemma_trimmed_start(s: Seq<char>)
    ensures
        trimmed_start(s).len() > 0 ==> !is_white_space(trimmed_start(s)[0]),
    decreases s.len(),
{
    if s.len() > 0 && is_white_space(s[0]) {
        lemma_trimmed_start(s.drop_first());
    }
}

/// What was trimmed has no white space at either end, and trimming it again
/// changes nothing.
pub proof fn law_trimmed(s: Seq<char>)
    ensures
        trimmed(s).len() > 0 ==> !is_white_space(trimmed(s)[0]) && !is_white_space(
            trimmed(s).last(),
        ),
        trimmed(trimmed(s)) == trimmed(s),
{
    let t = trimmed_start(s);
    lemma_trimmed_start(s);
    lemma_trimmed_end(t);
    if trimmed(s).len() > 0 {
        assert(trimmed(s)[0] == t[0]);
    }
    assert(trimmed_start(trimmed(s)) == trimmed(s));
    assert(trimmed_end(trimmed(s)) == trimmed(s));
}

/// The first `word_len` characters are not white space.
proof fn lemma_word_chars(s: Seq<char>)
    ensures
        forall|i: int| 0 <= i < word_len(s) ==> !is_white_space(#[trigger] s[i]),
        word_len(s) <= s.len(),
    decreases s.len(),
{
    if s.len() > 0 && !is_white_space(s[0]) {
        let t = s.drop_first();
        lemma_word_chars(t);
        assert forall|i: int| 0 <= i < word_len(s) implies !is_white_space(#[trigger] s[i]) by {
            if i > 0 {
                assert(t[i - 1] == s[i]);
            }
        }
    }
}

/// A word is not empty, holds no white space, and has nothing to be trimmed.
pub proof fn law_words(s: Seq<char>, i: int)
    requires
        0 <= i < words(s).len(),
    ensures
        words(s)[i].len() > 0,
        forall|k: int| 0 <= k < words(s)[i].len() ==> !is_white_space(#[trigger] words(s)[i][k]),
        trimmed(words(s)[i]) == words(s)[i],
    decreases s.len(),
{
    lemma_word_len(s);
    if is_white_space(s[0]) {
        law_words(s.drop_first(), i);
    } else if i > 0 {
        law_words(s.skip(word_len(s) as int), i - 1);
    } else {
        lemma_word_chars(s);
        let w = words(s)[0];
        assert(w == s.take(word_len(s) as int));
        assert forall|k: int| 0 <= k < w.len() implies !is_white_space(#[trigger] w[k]) by {
            assert(w[k] == s[k]);
        }
        assert(trimmed_start(w) == w);
        assert(trimmed_end(w) == w);
    }
}

/// The characters of `s`.
pub fn chars_of(s: &str) -> (res: Vec<char>)
    ensures
        res@ == s@,
{
    let mut res: Vec<char> = Vec::new();
    for c in it: s.chars()
        invariant
            res@ == it.seq().take(it.index()),
            it.seq() == s@,
    {
        res.push(c);
    }
    res
}

/// Removes white space at both ends.
pub fn trim<'a>(s: &'a str) -> (res: &'a str)
    ensures
        res@ == trimmed(s@),
{
    let cs = chars_of(s);
    let n: usize = cs.len();
    let mut lo: usize = 0;
    assert(cs@.skip(0) == cs@);
    while lo < n && white_space(cs[lo])
        invariant
            lo <= n == cs@.len(),
            trimmed_start(cs@) == trimmed_start(cs@.skip(lo as int)),
        decreases n - lo,
    {
        assert(cs@.skip(lo as int).drop_first() == cs@.skip(lo + 1));
        lo = lo + 1;
    }
    let mut hi: usize = n;
    assert(cs@.subrange(lo as int, n as int) == cs@.skip(lo as int));
    while hi > lo && white_space(cs[hi - 1])
        invariant
            lo <= hi <= n == cs@.len(),
            trimmed_end(cs@.skip(lo as int)) == trimmed_end(cs@.subrange(lo as int, hi as int)),
        decreases hi,
    {
        assert(cs@.subrange(lo as int, hi as int).drop_last() == cs@.subrange(lo as int, hi - 1));
        hi = hi - 1;
    }
    s.substring_char(lo, hi)
}

/// Removes trailing white space.
pub fn trim_end<'a>(s: &'a str) -> (res: &'a str)
    ensures
        res@ == trimmed_end(s@),
{
    let cs = chars_of(s);
    let mut hi: usize = cs.len();
    assert(cs@.take(hi as int) == cs@);
    while hi > 0 && white_space(cs[hi - 1])
        invariant
            hi <= cs@.len(),
            trimmed_end(cs@) == trimmed_end(cs@.take(hi as int)),
        decreases hi,
    {
        assert(cs@.take(hi as int).drop_last() == cs@.take(hi - 1));
        hi = hi - 1;
    }
    assert(cs@.take(hi as int) == s@.subrange(0, hi as int));
    s.substring_char(0, hi)
}

/// The words of `s`, in order.
pub fn split_whitespace(s: &str) -> (res: Vec<String>)
    ensures
        texts(res@) == words(s@),
{
    let cs = chars_of(s);
    let n: usize = cs.len();
    let mut res: Vec<String> = Vec::new();
    let mut i: usize = 0;
    assert(cs@.skip(0) == cs@);
    assert(texts(res@) + words(cs@) == words(cs@));
    while i < n
        invariant
            i <= n == cs@.len(),
            cs@ == s@,
            texts(res@) + words(cs@.skip(i as int)) == words(s@),
        decreases n - i,
    {
        let ghost rest = cs@.skip(i as int);
        if white_space(cs[i]) {
            assert(rest.drop_first() == cs@.skip(i + 1));
            i = i + 1;
        } else {
            let mut j: usize = i;
            while j < n && !white_space(cs[j])
                invariant
                    i <= j <= n == cs@.len(),
                    rest == cs@.skip(i as int),
                    word_len(rest) == (j - i) + word_len(cs@.skip(j as int)),
                decreases n - j,
            {
                assert(cs@.skip(j as int).drop_first() == cs@.skip(j + 1));
                j = j + 1;
            }
            proof {
                lemma_word_len(rest);
                assert(rest.take(j - i) == s@.subrange(i as int, j as int));
                assert(rest.skip(j - i) == cs@.skip(j as int));
            }
            let ghost before = texts(res@);
            let word = s.substring_char(i, j).to_owned();
            res.push(word);
            assert(texts(res@) == before.push(word@));
            assert(texts(res@) + words(cs@.skip(j as int)) == before + (seq![word@] + words(
                cs@.skip(j as int),
            )));
            i = j;
        }
    }
    assert(words(cs@.skip(n as int)) == Seq::<Seq<char>>::empty());
    assert(texts(res@) + Seq::<Seq<char>>::empty() == texts(res@));
    res
}

/// Whether `t` is one of the texts in `v`.
pub fn contains_text(v: &Vec<String>, t: &String) -> (res: bool)
    ensures
        res == texts(v@).contains(t@),
{
    let mut i: usize = 0;
    while i < v.len()
        invariant
            i <= v@.len(),
            forall|j: int| 0 <= j < i ==> texts(v@)[j] != t@,
        decreases v@.len() - i,
    {
        if v[i] == *t {
            assert(texts(v@)[i as int] == t@);
            return true;
        }
        i = i + 1;
    }
    false
}

/// The words of `s`, each once.
pub fn distinct_words(s: &str) -> (res: Vec<String>)
    ensures
        texts(res@).no_duplicates(),
        texts(res@).to_set() == words(s@).to_set(),
{
    let all = split_whitespace(s);
    let ghost goal = texts(all@);
    let mut res: Vec<String> = Vec::new();
    let mut i: usize = 0;
    while i < all.len()
        invariant
            i <= all@.len(),
            goal == texts(all@),
            texts(res@).no_duplicates(),
            forall|w: Seq<char>| #[trigger]
                texts(res@).contains(w) <==> goal.take(i as int).contains(w),
        decreases all@.len() - i,
    {
        let ghost before = texts(res@);
        let ghost word = all@[i as int]@;
        if !contains_text(&res, &all[i]) {
            res.push(all[i].clone());
            assert(texts(res@) == before.push(word));
        }
        assert(goal.take(i + 1) == goal.take(i as int).push(word));
        assert forall|w: Seq<char>| #[trigger]
            texts(res@).contains(w) <==> goal.take(i + 1).contains(w) by {
            lemma_push_contains(before, word, w);
            lemma_push_contains(goal.take(i as int), word, w);
        }
        i = i + 1;
    }
    assert(goal.take(goal.len() as int) == goal);
    assert(texts(res@).to_set() =~= words(s@).to_set());
    res
}

/// What a sequence holds after one more item.
pub proof fn lemma_push_contains<T>(s: Seq<T>, x: T, y: T)
    ensures
        s.push(x).contains(y) <==> s.contains(y) || x == y,
{
    let t = s.push(x);
    if s.contains(y) {
        let k = choose|k: int| 0 <= k < s.len() && s[k] == y;
        assert(t[k] == y);
    }
    if x == y {
        assert(t[s.len() as int] == y);
    }
    if t.contains(y) {
        let k = choose|k: int| 0 <= k < t.len() && t[k] == y;
        assert(k < s.len() ==> s[k] == y);
    }
}

/// The digit for `d`, which is below ten.
pub open spec fn digit(d: nat) -> char {
    (d + 0x30) as char
}

/// `n` in decimal, without leading zeros.
pub open spec fn decimal(n: nat) -> Seq<char>
    decreases n,
{
    if n < 10 {
        seq![digit(n)]
    } else {
        decimal(n / 10).push(digit(n % 10))
    }
}

/// One digit as text.
fn digit_text(d: usize) -> (res: &'static str)
    requires
        d < 10,
    ensures
        res@ == seq![digit(d as nat)],
{
    proof {
        reveal_strlit("0");
        reveal_strlit("1");
        reveal_strlit("2");
        reveal_strlit("3");
        reveal_strlit("4");
        reveal_strlit("5");
        reveal_strlit("6");
        reveal_strlit("7");
        reveal_strlit("8");
        reveal_strlit("9");
    }
    match d {
        0 => "0",
        1 => "1",
        2 => "2",
        3 => "3",
        4 => "4",
        5 => "5",
        6 => "6",
        7 => "7",
        8 => "8",
        _ => "9",
    }
}

/// Writes `n` in decimal.
pub fn decimal_text(n: usize) -> (res: String)
    ensures
        res@ == decimal(n as nat),
    decreases n,
{
    if n < 10 {
        digit_text(n).to_owned()
    } else {
        let head = decimal_text(n / 10);
        let tail = digit_text(n % 10);
        let res = head.concat(tail);
        assert(res@ == decimal(n as nat / 10).push(digit(n as nat % 10)));
        res
    }
}

/// `k` is where `a` first differs from `b`, and there `a` is the lesser or the
/// shorter.
pub open spec fn lesser_at(a: Seq<u8>, b: Seq<u8>, k: int) -> bool {
    &&& 0 <= k <= a.len()
    &&& k < b.len()
    &&& forall|i: int| 0 <= i < k ==> a[i] == b[i]
    &&& k < a.len() ==> a[k] < b[k]
}

/// Byte strings in lexicographic order: `a` comes strictly before `b`.
pub open spec fn bytes_before(a: Seq<u8>, b: Seq<u8>) -> bool {
    exists|k: int| lesser_at(a, b, k)
}

/// Texts in the order of their UTF-8 bytes: `a` comes strictly before `b`.
pub open spec fn text_before(a: Seq<char>, b: Seq<char>) -> bool {
    bytes_before(encode_utf8(a), encode_utf8(b))
}

/// The order of texts is a strict total order.
pub proof fn lemma_text_before_order(a: Seq<char>, b: Seq<char>)
    ensures
        !text_before(a, a),
        text_before(a, b) ==> !text_before(b, a),
        a != b ==> text_before(a, b) || text_before(b, a),
{
    broadcast use encode_utf8_decode_utf8;

    let x = encode_utf8(a);
    let y = encode_utf8(b);
    if text_before(a, b) && text_before(b, a) {
        let k = choose|k: int| lesser_at(x, y, k);
        let l = choose|l: int| lesser_at(y, x, l);
        assert(k < l || l < k || k == l);
        assert(false);
    }
    if a != b {
        assert(x != y) by {
            assert(decode_utf8(x) == a);
            assert(decode_utf8(y) == b);
        }
        lemma_bytes_compare(x, y, 0);
    }
    if text_before(a, a) {
        let k = choose|k: int| lesser_at(x, x, k);
        assert(false);
    }
}

/// Unequal byte strings that agree up to `k` are ordered one way or the other.
proof fn lemma_bytes_compare(x: Seq<u8>, y: Seq<u8>, k: int)
    requires
        x != y,
        0 <= k <= x.len(),
        k <= y.len(),
        forall|i: int| 0 <= i < k ==> x[i] == y[i],
    ensures
        bytes_before(x, y) || bytes_before(y, x),
    decreases x.len() - k,
{
    if k == x.len() {
        if k == y.len() {
            assert(x =~= y);
        }
        assert(lesser_at(x, y, k));
    } else if k == y.len() {
        assert(lesser_at(y, x, k));
    } else if x[k] == y[k] {
        lemma_bytes_compare(x, y, k + 1);
    } else {
        assert(lesser_at(x, y, k) || lesser_at(y, x, k));
    }
}

/// The order of texts is transitive.
pub proof fn lemma_text_before_trans(a: Seq<char>, b: Seq<char>, c: Seq<char>)
    requires
        text_before(a, b),
        text_before(b, c),
    ensures
        text_before(a, c),
{
    let x = encode_utf8(a);
    let y = encode_utf8(b);
    let z = encode_utf8(c);
    let k = choose|k: int| lesser_at(x, y, k);
    let l = choose|l: int| lesser_at(y, z, l);
    assert(lesser_at(x, z, if k < l { k } else { l }));
}

/// Whether `a` comes strictly before `b`.
pub fn comes_before(a: &str, b: &str) -> (res: bool)
    ensures
        res == text_before(a@, b@),
{
    let x = a.as_bytes();
    let y = b.as_bytes();
    let mut i: usize = 0;
    while i < x.len() && i < y.len() && x[i] == y[i]
        invariant
            i <= x@.len(),
            i <= y@.len(),
            forall|j: int| 0 <= j < i ==> x@[j] == y@[j],
        decreases x@.len() - i,
    {
        i = i + 1;
    }
    let res = i < y.len() && (i == x.len() || x[i] < y[i]);
    proof {
        if res {
            assert(lesser_at(x@, y@, i as int));
        } else if bytes_before(x@, y@) {
            let k = choose|k: int| lesser_at(x@, y@, k);
            assert(k < i || k == i || k > i);
            assert(false);
        }
    }
    res
}

/// The text that `String::from_utf8_lossy` makes of `bytes` that are not UTF-8.
pub uninterp spec fn lossy(bytes: Seq<u8>) -> Seq<char>;

/// What a reader is shown of `bytes`: the text that they encode, or the nearest
/// to it.
pub open spec fn readable(bytes: Seq<u8>) -> Seq<char> {
    if valid_utf8(bytes) {
        decode_utf8(bytes)
    } else {
        lossy(bytes)
    }
}

/// Calls `String::from_utf8_lossy`. Its result depends on the bytes alone, and
/// is the decoded text where the bytes are valid UTF-8. What stands in place of
/// malformed bytes is left to the name `lossy`.
#[verifier::external_body]
pub(crate) fn lossy_text(bytes: &[u8]) -> (res: String)
    ensures
        valid_utf8(bytes@) ==> res@ == decode_utf8(bytes@),
        !valid_utf8(bytes@) ==> res@ == lossy(bytes@),
{
    String::from_utf8_lossy(bytes).into_owned()
}

/// Calls `std::str::from_utf8`, which accepts exactly the valid UTF-8 and
/// hands the same bytes back as text.
#[verifier::external_body]
pub(crate) fn utf8_text(bytes: &[u8]) -> (res: Option<String>)
    ensures
        res is Some <==> valid_utf8(bytes@),
        res matches Some(t) ==> t@ == decode_utf8(bytes@),
{
    std::str::from_utf8(bytes).ok().map(|t| t.to_owned())
}

/// White space is these characters, and no others.
pub proof fn law_white_space(c: char)
    ensures
        is_white_space(c) <==> {
            ||| c == '\t' || c == '\n' || c == '\u{b}' || c == '\u{c}' || c == '\r' || c == ' '
            ||| c == '\u{85}' || c == '\u{a0}' || c == '\u{1680}' || c == '\u{2000}'
            ||| c == '\u{2001}' || c == '\u{2002}' || c == '\u{2003}' || c == '\u{2004}'
            ||| c == '\u{2005}' || c == '\u{2006}' || c == '\u{2007}' || c == '\u{2008}'
            ||| c == '\u{2009}' || c == '\u{200a}' || c == '\u{2028}' || c == '\u{2029}'
            ||| c == '\u{202f}' || c == '\u{205f}' || c == '\u{3000}'
        },
{
}

/// Nothing but white space.
pub open spec fn blank(s: Seq<char>) -> bool {
    forall|i: int| 0 <= i < s.len() ==> is_white_space(#[trigger] s[i])
}

/// White space in front of a text is trimmed away with what the text starts with.
proof fn lemma_blank_before(before: Seq<char>, s: Seq<char>)
    requires
        blank(before),
    ensures
        trimmed_start(before + s) == trimmed_start(s),
    decreases before.len(),
{
    if before.len() == 0 {
        assert(before + s =~= s);
    } else {
        let rest = before.drop_first();
        assert((before + s)[0] == before[0]);
        assert((before + s).drop_first() =~= rest + s);
        assert forall|i: int| 0 <= i < rest.len() implies is_white_space(#[trigger] rest[i]) by {
            assert(rest[i] == before[i + 1]);
        }
        lemma_blank_before(rest, s);
    }
}

/// White space behind a text is trimmed away with what the text ends with.
proof fn lemma_blank_after(s: Seq<char>, after: Seq<char>)
    requires
        blank(after),
    ensures
        trimmed_end(s + after) == trimmed_end(s),
    decreases after.len(),
{
    if after.len() == 0 {
        assert(s + after =~= s);
    } else {
        let rest = after.drop_last();
        assert((s + after).last() == after[after.len() - 1]);
        assert((s + after).drop_last() =~= s + rest);
        assert forall|i: int| 0 <= i < rest.len() implies is_white_space(#[trigger] rest[i]) by {
            assert(rest[i] == after[i]);
        }
        lemma_blank_after(s, rest);
    }
}

/// Of a text between white space, trimming leaves the text, and all of it.
pub proof fn law_trimmed_keeps_the_text(before: Seq<char>, text: Seq<char>, after: Seq<char>)
    requires
        blank(before),
        blank(after),
        text.len() > 0 ==> !is_white_space(text[0]) && !is_white_space(text.last()),
    ensures
        trimmed(before + text + after) == text,
        text.len() > 0 ==> trimmed_end(before + text + after) == before + text,
        text.len() == 0 ==> trimmed_end(before + text + after) == Seq::<char>::empty(),
{
    assert(before + text + after =~= before + (text + after));
    lemma_blank_before(before, text + after);
    lemma_blank_after(text, after);
    lemma_blank_after(before + text, after);
    if text.len() > 0 {
        assert((text + after)[0] == text[0]);
        assert((before + text).last() == text.last());
    } else {
        let none = Seq::<char>::empty();
        assert(text + after =~= after + none);
        lemma_blank_before(after, none);
        assert(before + text =~= none + before);
        lemma_blank_after(none, before);
    }
}

/// The length of the first word does not depend on what follows white space.
proof fn lemma_word_len_stops(a: Seq<char>, c: char, b: Seq<char>)
    requires
        is_white_space(c),
    ensures
        word_len(a.push(c) + b) == word_len(a),
    decreases a.len(),
{
    let all = a.push(c) + b;
    if a.len() == 0 {
        assert(all[0] == c);
    } else {
        assert(all[0] == a[0]);
        assert(all.drop_first() =~= a.drop_first().push(c) + b);
        lemma_word_len_stops(a.drop_first(), c, b);
    }
}

/// White space parts words: those on both sides of it are the words of the whole,
/// in order.
pub proof fn law_white_space_parts_words(a: Seq<char>, c: char, b: Seq<char>)
    requires
        is_white_space(c),
    ensures
        words(a.push(c) + b) == words(a) + words(b),
    decreases a.len(),
{
    let all = a.push(c) + b;
    if a.len() == 0 {
        assert(all[0] == c);
        assert(all.drop_first() =~= b);
        assert(words(a) + words(b) =~= words(b));
    } else if is_white_space(a[0]) {
        assert(all[0] == a[0]);
        assert(all.drop_first() =~= a.drop_first().push(c) + b);
        law_white_space_parts_words(a.drop_first(), c, b);
    } else {
        let n = word_len(a) as int;
        assert(all[0] == a[0]);
        lemma_word_len(a);
        lemma_word_len_stops(a, c, b);
        assert(all.take(n) =~= a.take(n));
        assert(all.skip(n) =~= a.skip(n).push(c) + b);
        law_white_space_parts_words(a.skip(n), c, b);
        assert(seq![a.take(n)] + (words(a.skip(n)) + words(b)) =~= seq![a.take(n)] + words(
            a.skip(n),
        ) + words(b));
    }
}

/// A text without white space is its only word, or none where it is empty.
pub proof fn law_single_word(s: Seq<char>)
    requires
        forall|i: int| 0 <= i < s.len() ==> !is_white_space(#[trigger] s[i]),
    ensures
        words(s) == if s.len() == 0 {
            Seq::<Seq<char>>::empty()
        } else {
            seq![s]
        },
{
    if s.len() > 0 {
        lemma_whole_word(s);
        assert(s.take(s.len() as int) =~= s);
        assert(s.skip(s.len() as int) =~= Seq::<char>::empty());
        assert(words(s.skip(s.len() as int)) =~= Seq::<Seq<char>>::empty());
        assert(!is_white_space(s[0]));
        assert(words(s) =~= seq![s]);
    }
}

/// A text without white space is one word long.
proof fn lemma_whole_word(s: Seq<char>)
    requires
        forall|i: int| 0 <= i < s.len() ==> !is_white_space(#[trigger] s[i]),
    ensures
        word_len(s) == s.len(),
    decreases s.len(),
{
    if s.len() > 0 {
        let rest = s.drop_first();
        assert(!is_white_space(s[0]));
        assert forall|i: int| 0 <= i < rest.len() implies !is_white_space(#[trigger] rest[i]) by {
            assert(rest[i] == s[i + 1]);
        }
        lemma_whole_word(rest);
    }
}

/// The number that decimal digits stand for.
pub open spec fn value_of(digits: Seq<char>) -> int
    decreases digits.len(),
{
    if digits.len() == 0 {
        0
    } else {
        10 * value_of(digits.drop_last()) + (digits.last() as int - '0' as int)
    }
}

/// A number in decimal is made of digits, stands for that number, and has no
/// zero in front unless it is zero.
pub proof fn law_decimal(n: nat)
    ensures
        value_of(decimal(n)) == n,
        decimal(n).len() > 0,
        forall|i: int| 0 <= i < decimal(n).len() ==> '0' <= #[trigger] decimal(n)[i] <= '9',
        decimal(n)[0] == '0' ==> n == 0 && decimal(n).len() == 1,
    decreases n,
{
    let d = decimal(n);
    reveal_with_fuel(value_of, 2);
    if n < 10 {
        assert(d.drop_last() =~= Seq::<char>::empty());
    } else {
        law_decimal(n / 10);
        assert(d.drop_last() =~= decimal(n / 10));
        assert(d[0] == decimal(n / 10)[0]);
        assert forall|i: int| 0 <= i < d.len() implies '0' <= #[trigger] d[i] <= '9' by {
            if i < d.len() - 1 {
                assert(d[i] == decimal(n / 10)[i]);
            }
        }
    }
}

/// Texts are ordered by the first byte in which their encodings differ, and a
/// text comes before what it is the beginning of.
pub proof fn law_text_order(a: Seq<char>, b: Seq<char>, k: int)
    requires
        0 <= k <= encode_utf8(a).len(),
        k < encode_utf8(b).len(),
        encode_utf8(a).take(k) == encode_utf8(b).take(k),
        k == encode_utf8(a).len() || encode_utf8(a)[k] < encode_utf8(b)[k],
    ensures
        text_before(a, b),
        !text_before(b, a),
{
    let x = encode_utf8(a);
    let y = encode_utf8(b);
    assert forall|i: int| 0 <= i < k implies x[i] == y[i] by {
        assert(x.take(k)[i] == y.take(k)[i]);
    }
    assert(lesser_at(x, y, k));
    lemma_text_before_order(a, b);
}

/// A reader is shown the text that the bytes encode, and nothing else where they
/// encode one.
pub proof fn law_readable(text: Seq<char>, bytes: Seq<u8>)
    ensures
        readable(encode_utf8(text)) == text,
        valid_utf8(bytes) ==> encode_utf8(readable(bytes)) == bytes,
        !valid_utf8(bytes) ==> readable(bytes) == lossy(bytes),
{
    broadcast use {encode_utf8_decode_utf8, encode_utf8_valid_utf8, decode_utf8_encode_utf8};

}

/// What `trim`, `trim_end` and `split_whitespace` return of a text between white
/// space, and of two texts with white space between them.
pub proof fn law_text_functions_returned(
    s: &str,
    trimmed_text: &str,
    end_trimmed: &str,
    list: Vec<String>,
    before: Seq<char>,
    text: Seq<char>,
    after: Seq<char>,
)
    requires
        call_ensures(trim, (s,), trimmed_text),
        call_ensures(trim_end, (s,), end_trimmed),
        call_ensures(split_whitespace, (s,), list),
        s@ == before + text + after,
        blank(before),
        blank(after),
        text.len() > 0,
        forall|i: int| 0 <= i < text.len() ==> !is_white_space(#[trigger] text[i]),
    ensures
        trimmed_text@ == text,
        end_trimmed@ == before + text,
        list@.len() == 1 && list@[0]@ == text,
{
    law_trimmed_keeps_the_text(before, text, after);
    lemma_words_between(before, text, after);
    assert(texts(list@).len() == list@.len());
    assert(texts(list@)[0] == list@[0]@);
}

/// White space around a word adds no word.
proof fn lemma_words_between(before: Seq<char>, word: Seq<char>, after: Seq<char>)
    requires
        blank(before),
        blank(after),
        word.len() > 0,
        forall|i: int| 0 <= i < word.len() ==> !is_white_space(#[trigger] word[i]),
    ensures
        words(before + word + after) == seq![word],
    decreases before.len(),
{
    let none = Seq::<char>::empty();
    if before.len() > 0 {
        let rest = before.drop_first();
        let all = before + word + after;
        assert(all[0] == before[0]);
        assert(all.drop_first() =~= rest + word + after);
        assert forall|i: int| 0 <= i < rest.len() implies is_white_space(#[trigger] rest[i]) by {
            assert(rest[i] == before[i + 1]);
        }
        lemma_words_between(rest, word, after);
    } else if after.len() > 0 {
        let rest = after.drop_first();
        assert(before + word + after =~= word.push(after[0]) + rest);
        law_white_space_parts_words(word, after[0], rest);
        law_single_word(word);
        assert forall|i: int| 0 <= i < rest.len() implies is_white_space(#[trigger] rest[i]) by {
            assert(rest[i] == after[i + 1]);
        }
        lemma_no_words(rest);
        assert(seq![word] + Seq::<Seq<char>>::empty() =~= seq![word]);
    } else {
        assert(before + word + after =~= word);
        law_single_word(word);
    }
}

/// White space holds no word.
proof fn lemma_no_words(s: Seq<char>)
    requires
        blank(s),
    ensures
        words(s) == Seq::<Seq<char>>::empty(),
    decreases s.len(),
{
    if s.len() > 0 {
        let rest = s.drop_first();
        assert(is_white_space(s[0]));
        assert forall|i: int| 0 <= i < rest.len() implies is_white_space(#[trigger] rest[i]) by {
            assert(rest[i] == s[i + 1]);
        }
        lemma_no_words(rest);
    }
}

/// What `decimal_text` returns stands for the number.
pub proof fn law_decimal_returned(n: usize, res: String)
    requires
        call_ensures(decimal_text, (n,), res),
    ensures
        value_of(res@) == n,
        res@.len() > 0,
        res@[0] == '0' ==> n == 0 && res@.len() == 1,
{
    law_decimal(n as nat);
}

} // verus!
