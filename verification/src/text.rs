//! Character-level text helpers: whitespace, tokenising, joining.

use vstd::prelude::*;
use vstd::string::*;

verus! {

/// The Unicode `White_Space` property, which is what `char::is_whitespace`
/// tests.
pub open spec fn is_white(c: char) -> bool {
    let u = c as u32;
    ||| 9 <= u <= 13
    ||| u == 32
    ||| u == 0x85
    ||| u == 0xA0
    ||| u == 0x1680
    ||| 0x2000 <= u <= 0x200A
    ||| u == 0x2028
    ||| u == 0x2029
    ||| u == 0x202F
    ||| u == 0x205F
    ||| u == 0x3000
}

/// Whether `c` is Unicode white space.
pub fn is_whitespace(c: char) -> (r: bool)
    ensures
        r == is_white(c),
{
    let u = c as u32;
    (9 <= u && u <= 13) || u == 32 || u == 0x85 || u == 0xA0 || u == 0x1680 || (0x2000 <= u
        && u <= 0x200A) || u == 0x2028 || u == 0x2029 || u == 0x202F || u == 0x205F || u == 0x3000
}

/// The characters of `s`, one element per `char`.
pub fn chars_of(s: &str) -> (r: Vec<char>)
    ensures
        r@ == s@,
{
    let n = s.unicode_len();
    let mut v: Vec<char> = Vec::new();
    let mut i: usize = 0;
    while i < n
        invariant
            i <= n,
            n == s@.len(),
            v@ == s@.take(i as int),
        decreases n - i,
    {
        let c = s.get_char(i);
        v.push(c);
        assert(s@.take(i + 1) =~= s@.take(i as int).push(c));
        i = i + 1;
    }
    assert(s@.take(n as int) =~= s@);
    v
}

/// `String::push`: appends one character.
#[verifier::external_body]
pub(crate) fn push_char(s: &mut String, c: char)
    ensures
        final(s)@ == old(s)@.push(c),
{
    s.push(c);
}

/// A string holding the characters of `cs[from..to]`.
pub fn string_from_chars(cs: &Vec<char>, from: usize, to: usize) -> (r: String)
    requires
        from <= to <= cs@.len(),
    ensures
        r@ == cs@.subrange(from as int, to as int),
{
    let mut r = String::new();
    let mut i = from;
    while i < to
        invariant
            from <= i <= to,
            to <= cs@.len(),
            r@ == cs@.subrange(from as int, i as int),
        decreases to - i,
    {
        push_char(&mut r, cs[i]);
        assert(cs@.subrange(from as int, i + 1) =~= cs@.subrange(from as int, i as int).push(
            cs@[i as int],
        ));
        i = i + 1;
    }
    r
}

/// Reading `s` from the left: the words finished so far, and the word being
/// read (empty between words).
pub open spec fn scan_words(s: Seq<char>) -> (Seq<Seq<char>>, Seq<char>)
    decreases s.len(),
{
    if s.len() == 0 {
        (Seq::empty(), Seq::empty())
    } else {
        let prev = scan_words(s.drop_last());
        let c = s.last();
        if is_white(c) {
            if prev.1.len() > 0 {
                (prev.0.push(prev.1), Seq::empty())
            } else {
                (prev.0, Seq::empty())
            }
        } else {
            (prev.0, prev.1.push(c))
        }
    }
}

/// The maximal runs of non-white characters of `s`, in order: what
/// `str::split_whitespace` yields.
pub open spec fn words(s: Seq<char>) -> Seq<Seq<char>> {
    let st = scan_words(s);
    if st.1.len() > 0 {
        st.0.push(st.1)
    } else {
        st.0
    }
}

/// `w` is a word: not empty, and without white space.
pub open spec fn is_token(w: Seq<char>) -> bool {
    w.len() > 0 && forall|j: int| 0 <= j < w.len() ==> !is_white(#[trigger] w[j])
}

proof fn lemma_scan_tokens(s: Seq<char>)
    ensures
        forall|i: int| 0 <= i < scan_words(s).0.len() ==> is_token(#[trigger] scan_words(s).0[i]),
        forall|j: int| 0 <= j < scan_words(s).1.len() ==> !is_white(#[trigger] scan_words(s).1[j]),
    decreases s.len(),
{
    if s.len() > 0 {
        lemma_scan_tokens(s.drop_last());
        let prev = scan_words(s.drop_last());
        let cur = scan_words(s);
        if !is_white(s.last()) {
            assert forall|j: int| 0 <= j < cur.1.len() implies !is_white(#[trigger] cur.1[j]) by {
                if j < prev.1.len() {
                    assert(cur.1[j] == prev.1[j]);
                }
            }
        } else if prev.1.len() > 0 {
            assert forall|i: int| 0 <= i < cur.0.len() implies is_token(#[trigger] cur.0[i]) by {
                if i < prev.0.len() {
                    assert(cur.0[i] == prev.0[i]);
                } else {
                    assert(cur.0[i] == prev.1);
                }
            }
        }
    }
}

/// Every word of a text is a token: not empty, and without white space.
pub proof fn lemma_words_are_tokens(s: Seq<char>)
    ensures
        forall|i: int| 0 <= i < words(s).len() ==> is_token(#[trigger] words(s)[i]),
{
    lemma_scan_tokens(s);
    let st = scan_words(s);
    if st.1.len() > 0 {
        assert forall|i: int| 0 <= i < words(s).len() implies is_token(#[trigger] words(s)[i]) by {
            if i < st.0.len() {
                assert(words(s)[i] == st.0[i]);
            }
        }
    }
}

/// The white-space test separates words exactly at Unicode `White_Space`:
/// the C0 controls tab, line feed, vertical tab, form feed, carriage return,
/// and the space are white, and no other ASCII character is (letters,
/// digits and punctuation such as `_`, `-`, `.` never separate words); of
/// the rest, exactly NEL, NO-BREAK SPACE, OGHAM SPACE MARK, the spaces
/// U+2000 to U+200A, LINE and PARAGRAPH SEPARATOR, NARROW NO-BREAK SPACE,
/// MEDIUM MATHEMATICAL SPACE and IDEOGRAPHIC SPACE are.
pub proof fn lemma_white_space_is_unicode_white_space(c: char)
    ensures
        (c as u32) < 0x80 ==> (is_white(c) <==> (9 <= (c as u32) <= 13 || (c as u32) == 32)),
        0x21 <= (c as u32) <= 0x7E ==> !is_white(c),
        (c as u32) >= 0x80 ==> (is_white(c) <==> ((c as u32) == 0x85 || (c as u32) == 0xA0
            || (c as u32) == 0x1680 || (0x2000 <= (c as u32) <= 0x200A) || (c as u32) == 0x2028
            || (c as u32) == 0x2029 || (c as u32) == 0x202F || (c as u32) == 0x205F || (c as u32)
            == 0x3000)),
{
}

/// Scanning a text whose reading ends between words, then more text, gives
/// the words of the first part followed by the scan of the second.
proof fn lemma_scan_after_break(p: Seq<char>, s: Seq<char>)
    requires
        scan_words(p).1.len() == 0,
    ensures
        scan_words(p + s) == (scan_words(p).0 + scan_words(s).0, scan_words(s).1),
    decreases s.len(),
{
    if s.len() == 0 {
        assert(p + s =~= p);
        assert(scan_words(p).0 + Seq::<Seq<char>>::empty() =~= scan_words(p).0);
    } else {
        assert((p + s).drop_last() =~= p + s.drop_last());
        assert((p + s).last() == s.last());
        lemma_scan_after_break(p, s.drop_last());
        let a = scan_words(p).0;
        let prev = scan_words(s.drop_last());
        if is_white(s.last()) && prev.1.len() > 0 {
            assert(a + prev.0.push(prev.1) =~= (a + prev.0).push(prev.1));
        }
    }
}

/// A white character ends the word being read: what came before is all
/// finished words.
proof fn lemma_scan_white_end(p: Seq<char>, c: char)
    requires
        is_white(c),
    ensures
        scan_words(p.push(c)) == (words(p), Seq::<char>::empty()),
{
    assert(p.push(c).drop_last() =~= p);
}

/// Splitting at a white character splits the words: the words of
/// `a + [c] + b`, for white `c`, are the words of `a` followed by the words
/// of `b`.
pub proof fn lemma_words_split_at_white(a: Seq<char>, c: char, b: Seq<char>)
    requires
        is_white(c),
    ensures
        words(a + seq![c] + b) == words(a) + words(b),
{
    lemma_scan_white_end(a, c);
    assert(a + seq![c] =~= a.push(c));
    lemma_scan_after_break(a.push(c), b);
    assert(a + seq![c] + b =~= a.push(c) + b);
    let sb = scan_words(b);
    if sb.1.len() > 0 {
        assert(words(a) + sb.0.push(sb.1) =~= (words(a) + sb.0).push(sb.1));
    }
}

proof fn lemma_scan_token(t: Seq<char>)
    requires
        forall|j: int| 0 <= j < t.len() ==> !is_white(#[trigger] t[j]),
    ensures
        scan_words(t) == (Seq::<Seq<char>>::empty(), t),
    decreases t.len(),
{
    if t.len() > 0 {
        lemma_scan_token(t.drop_last());
        assert(!is_white(t[t.len() - 1]));
        assert(t.drop_last().push(t.last()) =~= t);
    } else {
        assert(t =~= Seq::<char>::empty());
    }
}

/// A run of non-white characters is one word, unchanged: the words of a
/// token are that token alone. With `lemma_words_split_at_white` and
/// `words` of the empty text being empty, this fixes the words of every
/// text as its maximal runs of non-white characters.
pub proof fn lemma_token_is_one_word(t: Seq<char>)
    requires
        is_token(t),
    ensures
        words(t) == seq![t],
        words(Seq::<char>::empty()) == Seq::<Seq<char>>::empty(),
{
    lemma_scan_token(t);
    assert(Seq::<Seq<char>>::empty().push(t) =~= seq![t]);
}

/// Splits `s` into its whitespace-separated words.
pub fn split_whitespace(s: &str) -> (r: Vec<String>)
    ensures
        r.deep_view() == words(s@),
{
    let cs = chars_of(s);
    let n = cs.len();
    let mut done: Vec<String> = Vec::new();
    let mut cur = String::new();
    let mut i: usize = 0;
    while i < n
        invariant
            i <= n,
            n == cs@.len(),
            cs@ == s@,
            done.deep_view() == scan_words(cs@.take(i as int)).0,
            cur@ == scan_words(cs@.take(i as int)).1,
        decreases n - i,
    {
        let c = cs[i];
        assert(cs@.take(i + 1).drop_last() =~= cs@.take(i as int));
        if is_whitespace(c) {
            if cur.unicode_len() > 0 {
                let ghost before = done.deep_view();
                done.push(cur);
                assert(done.deep_view() =~= before.push(scan_words(cs@.take(i as int)).1));
            }
            cur = String::new();
        } else {
            push_char(&mut cur, c);
        }
        i = i + 1;
    }
    assert(cs@.take(n as int) =~= cs@);
    if cur.unicode_len() > 0 {
        let ghost before = done.deep_view();
        done.push(cur);
        assert(done.deep_view() =~= before.push(scan_words(cs@).1));
    }
    done
}

/// `parts` with `sep` between neighbours.
pub open spec fn joined(parts: Seq<Seq<char>>, sep: Seq<char>) -> Seq<char>
    decreases parts.len(),
{
    if parts.len() == 0 {
        Seq::empty()
    } else if parts.len() == 1 {
        parts[0]
    } else {
        joined(parts.drop_last(), sep) + sep + parts.last()
    }
}

/// Joins `parts[from..to]` with `sep` between neighbours.
pub fn join_range(parts: &Vec<String>, from: usize, to: usize, sep: &str) -> (r: String)
    requires
        from <= to <= parts@.len(),
    ensures
        r@ == joined(parts.deep_view().subrange(from as int, to as int), sep@),
{
    let mut r = String::new();
    let mut i = from;
    while i < to
        invariant
            from <= i <= to,
            to <= parts@.len(),
            r@ == joined(parts.deep_view().subrange(from as int, i as int), sep@),
        decreases to - i,
    {
        let ghost prev = parts.deep_view().subrange(from as int, i as int);
        let ghost next = parts.deep_view().subrange(from as int, i + 1);
        assert(next.drop_last() =~= prev);
        if i > from {
            r.append(sep);
        }
        r.append(parts[i].as_str());
        i = i + 1;
    }
    r
}

/// `str::to_lowercase`: Unicode lower-case mapping of every character.
pub uninterp spec fn lowercase_of(s: Seq<char>) -> Seq<char>;

/// Calls `str::to_lowercase`; its result is named `lowercase_of`, a function
/// of the characters of `s` alone (the Unicode case tables are fixed in the
/// standard library). Nothing more is stated of it.
#[verifier::external_body]
pub(crate) fn lowercase(s: &str) -> (r: String)
    ensures
        r@ == lowercase_of(s@),
{
    s.to_lowercase()
}

} // verus!
