//! Splitting, testing and joining the words of a command line.
use vstd::prelude::*;
use vstd::string::*;

verus! {

broadcast use vstd::string::group_string_axioms;

/// The characters with the Unicode `White_Space` property.
pub open spec fn is_white_space(c: char) -> bool {
    let n = c as int;
    ||| 0x09 <= n <= 0x0D
    ||| n == 0x20
    ||| n == 0x85
    ||| n == 0xA0
    ||| n == 0x1680
    ||| 0x2000 <= n <= 0x200A
    ||| n == 0x2028
    ||| n == 0x2029
    ||| n == 0x202F
    ||| n == 0x205F
    ||| n == 0x3000
}

/// Calls `char::is_whitespace`, which std documents as true exactly for the
/// characters with the Unicode `White_Space` property; the contract lists
/// that property's code points.
#[verifier::external_body]
fn char_is_whitespace(c: char) -> (r: bool)
    ensures
        r == is_white_space(c),
{
    c.is_whitespace()
}

/// Reading `s` from the left: the words already ended, and the word being
/// read (empty between words).
pub open spec fn word_scan(s: Seq<char>) -> (Seq<Seq<char>>, Seq<char>)
    decreases s.len(),
{
    if s.len() == 0 {
        (Seq::empty(), Seq::empty())
    } else {
        let (done, cur) = word_scan(s.drop_last());
        if is_white_space(s.last()) {
            if cur.len() > 0 {
                (done.push(cur), Seq::empty())
            } else {
                (done, Seq::empty())
            }
        } else {
            (done, cur.push(s.last()))
        }
    }
}

/// The words of `s`: its maximal runs of characters that are not white
/// space, in order.
pub open spec fn words(s: Seq<char>) -> Seq<Seq<char>> {
    let (done, cur) = word_scan(s);
    if cur.len() > 0 {
        done.push(cur)
    } else {
        done
    }
}

/// Every character of `s` is white space (so `s` trims to nothing).
pub open spec fn is_blank(s: Seq<char>) -> bool {
    forall|i: int| 0 <= i < s.len() ==> is_white_space(#[trigger] s[i])
}

/// `parts` with `sep` between each two of them.
pub open spec fn joined(parts: Seq<Seq<char>>, sep: Seq<char>) -> Seq<char>
    decreases parts.len(),
{
    if parts.len() == 0 {
        Seq::empty()
    } else if parts.len() == 1 {
        parts[0]
    } else {
        joined(parts.drop_last(), sep) + sep + parts.last()
    }
}

/// The characters of `s`, one by one.
fn chars_of(s: &str) -> (cs: Vec<char>)
    ensures
        cs@ == s@,
{
    let mut cs: Vec<char> = Vec::new();
    for c in it: s.chars()
        invariant
            cs@ == it.seq().take(it.index() as int),
            it.seq() == s@,
    {
        cs.push(c);
    }
    assert(cs@ =~= s@);
    cs
}

/// Whether two strings hold the same characters.
pub fn same_text(a: &str, b: &str) -> (r: bool)
    ensures
        r == (a@ == b@),
{
    String::from_str(a) == String::from_str(b)
}

/// The words of `s`, as `str::split_whitespace` gives them.
pub fn split_words(s: &str) -> (ws: Vec<String>)
    ensures
        ws.deep_view() == words(s@),
{
    let cs = chars_of(s);
    let n = cs.len();
    let mut ws: Vec<String> = Vec::new();
    let mut start: usize = 0;
    let mut i: usize = 0;
    assert(s@.take(0) =~= Seq::<char>::empty());
    while i < n
        invariant
            n == cs@.len() == s@.len(),
            cs@ == s@,
            start <= i <= n,
            word_scan(s@.take(i as int)) == (ws.deep_view(), s@.subrange(start as int, i as int)),
        decreases n - i,
    {
        let ghost prev = s@.take(i as int);
        assert(s@.take(i + 1).drop_last() =~= prev);
        assert(s@.take(i + 1).last() == cs@[i as int]);
        if char_is_whitespace(cs[i]) {
            if start < i {
                let ghost old_ws = ws.deep_view();
                let w = String::from_str(s.substring_char(start, i));
                ws.push(w);
                assert(ws.deep_view() =~= old_ws.push(s@.subrange(start as int, i as int)));
            }
            start = i + 1;
        }
        i += 1;
        assert(s@.subrange(start as int, i as int) =~= if start == i {
            Seq::<char>::empty()
        } else {
            s@.subrange(start as int, i - 1).push(cs@[i - 1])
        });
    }
    assert(s@.take(n as int) =~= s@);
    if start < n {
        let ghost old_ws = ws.deep_view();
        let w = String::from_str(s.substring_char(start, n));
        ws.push(w);
        assert(ws.deep_view() =~= old_ws.push(s@.subrange(start as int, n as int)));
    }
    assert(ws.deep_view() =~= words(s@));
    ws
}

/// Whether `s` is empty once trimmed, that is, whether all of it is white
/// space.
pub fn blank(s: &str) -> (r: bool)
    ensures
        r == is_blank(s@),
{
    let cs = chars_of(s);
    let mut i: usize = 0;
    while i < cs.len()
        invariant
            cs@ == s@,
            i <= cs@.len(),
            forall|j: int| 0 <= j < i ==> is_white_space(#[trigger] s@[j]),
        decreases cs.len() - i,
    {
        if !char_is_whitespace(cs[i]) {
            return false;
        }
        i += 1;
    }
    true
}

/// The strings `parts[from..]`, with `sep` between each two of them.
pub fn join_from(parts: &Vec<String>, from: usize, sep: &str) -> (r: String)
    requires
        from <= parts.len(),
    ensures
        r@ == joined(parts.deep_view().skip(from as int), sep@),
{
    let mut r = String::new();
    let mut i: usize = from;
    assert(parts.deep_view().subrange(from as int, from as int) =~= Seq::<Seq<char>>::empty());
    while i < parts.len()
        invariant
            from <= i <= parts.len(),
            r@ == joined(parts.deep_view().subrange(from as int, i as int), sep@),
        decreases parts.len() - i,
    {
        let ghost before = parts.deep_view().subrange(from as int, i as int);
        let ghost after = parts.deep_view().subrange(from as int, i + 1);
        assert(after.drop_last() =~= before);
        assert(after.last() == parts[i as int]@);
        if i > from {
            r.append(sep);
        } else {
            assert(after =~= seq![parts[i as int]@]);
        }
        r.append(parts[i].as_str());
        i += 1;
    }
    assert(parts.deep_view().subrange(from as int, parts.len() as int) =~= parts.deep_view().skip(
        from as int,
    ));
    r
}

/// Once a scan has ended its last word, what follows is scanned as on its
/// own, its words coming after the ones already ended.
proof fn lemma_scan_after_word_end(p: Seq<char>, t: Seq<char>)
    requires
        word_scan(p).1.len() == 0,
    ensures
        word_scan(p + t) == (word_scan(p).0 + word_scan(t).0, word_scan(t).1),
    decreases t.len(),
{
    if t.len() == 0 {
        assert(p + t =~= p);
        assert(word_scan(p).0 + Seq::<Seq<char>>::empty() =~= word_scan(p).0);
    } else {
        let t0 = t.drop_last();
        lemma_scan_after_word_end(p, t0);
        assert((p + t).drop_last() =~= p + t0);
        assert((p + t).last() == t.last());
        let d = word_scan(p).0;
        let (w0, c0) = word_scan(t0);
        assert((d + w0).push(c0) =~= d + w0.push(c0));
    }
}

/// A string with no white space in it is one word, or none when it is empty.
pub proof fn lemma_words_without_white_space(s: Seq<char>)
    requires
        forall|i: int| 0 <= i < s.len() ==> !is_white_space(#[trigger] s[i]),
    ensures
        words(s) == (if s.len() > 0 {
            seq![s]
        } else {
            Seq::<Seq<char>>::empty()
        }),
    decreases s.len(),
{
    lemma_scan_plain(s);
    if s.len() > 0 {
        assert(Seq::<Seq<char>>::empty().push(s) =~= seq![s]);
    }
}

proof fn lemma_scan_plain(s: Seq<char>)
    requires
        forall|i: int| 0 <= i < s.len() ==> !is_white_space(#[trigger] s[i]),
    ensures
        word_scan(s) == (Seq::<Seq<char>>::empty(), s),
    decreases s.len(),
{
    if s.len() > 0 {
        let s0 = s.drop_last();
        assert forall|i: int| 0 <= i < s0.len() implies !is_white_space(#[trigger] s0[i]) by {
            assert(s0[i] == s[i]);
        }
        lemma_scan_plain(s0);
        assert(!is_white_space(s[s.len() - 1]));
        assert(s0.push(s.last()) =~= s);
    }
}

/// A white-space character separates words: the words of `s1`, the space
/// and `s2` are those of `s1` followed by those of `s2`.
pub proof fn lemma_words_split_at_white_space(s1: Seq<char>, c: char, s2: Seq<char>)
    requires
        is_white_space(c),
    ensures
        words(s1 + seq![c] + s2) == words(s1) + words(s2),
{
    let p = s1 + seq![c];
    assert(p.drop_last() =~= s1);
    assert(p.last() == c);
    assert(word_scan(p) == (words(s1), Seq::<char>::empty()));
    lemma_scan_after_word_end(p, s2);
    let (w2, c2) = word_scan(s2);
    assert((words(s1) + w2).push(c2) =~= words(s1) + w2.push(c2));
}

/// Every word is non-empty and holds no white space.
pub proof fn lemma_words_are_plain(s: Seq<char>)
    ensures
        forall|k: int| 0 <= k < words(s).len() ==> (#[trigger] words(s)[k]).len() > 0,
        forall|k: int, j: int|
            0 <= k < words(s).len() && 0 <= j < words(s)[k].len() ==> !is_white_space(
                #[trigger] words(s)[k][j],
            ),
{
    lemma_scan_words_plain(s);
}

proof fn lemma_scan_words_plain(s: Seq<char>)
    ensures
        forall|k: int| 0 <= k < word_scan(s).0.len() ==> (#[trigger] word_scan(s).0[k]).len() > 0,
        forall|k: int, j: int|
            0 <= k < word_scan(s).0.len() && 0 <= j < word_scan(s).0[k].len() ==> !is_white_space(
                #[trigger] word_scan(s).0[k][j],
            ),
        forall|j: int| 0 <= j < word_scan(s).1.len() ==> !is_white_space(#[trigger] word_scan(s).1[j]),
    decreases s.len(),
{
    if s.len() > 0 {
        let s0 = s.drop_last();
        lemma_scan_words_plain(s0);
        let (d, c) = word_scan(s0);
        if is_white_space(s.last()) && c.len() > 0 {
            let d2 = d.push(c);
            assert(word_scan(s).0 == d2);
            assert forall|k: int| 0 <= k < d2.len() implies (#[trigger] d2[k]).len() > 0 by {
                if k < d.len() {
                    assert(d2[k] == d[k]);
                }
            }
            assert forall|k: int, j: int|
                0 <= k < d2.len() && 0 <= j < d2[k].len() implies !is_white_space(
                #[trigger] d2[k][j],
            ) by {
                if k < d.len() {
                    assert(d2[k] == d[k]);
                } else {
                    assert(d2[k] == c);
                }
            }
        }
    }
}

/// Words joined by single spaces split back into the same words.
pub proof fn lemma_split_joined_words(ws: Seq<Seq<char>>)
    requires
        forall|k: int| 0 <= k < ws.len() ==> (#[trigger] ws[k]).len() > 0,
        forall|k: int, j: int|
            0 <= k < ws.len() && 0 <= j < ws[k].len() ==> !is_white_space(#[trigger] ws[k][j]),
    ensures
        words(joined(ws, " "@)) == ws,
    decreases ws.len(),
{
    reveal_strlit(" ");
    assert(" "@ =~= seq![' ']);
    if ws.len() == 0 {
        assert(words(Seq::<char>::empty()) =~= ws);
    } else if ws.len() == 1 {
        let w = ws[0];
        assert forall|j: int| 0 <= j < w.len() implies !is_white_space(#[trigger] w[j]) by {
            assert(ws[0][j] == w[j]);
        }
        lemma_words_without_white_space(w);
        assert(seq![w] =~= ws);
    } else {
        let init = ws.drop_last();
        let w = ws.last();
        assert forall|k: int| 0 <= k < init.len() implies (#[trigger] init[k]).len() > 0 by {
            assert(init[k] == ws[k]);
        }
        assert forall|k: int, j: int|
            0 <= k < init.len() && 0 <= j < init[k].len() implies !is_white_space(
            #[trigger] init[k][j],
        ) by {
            assert(init[k] == ws[k]);
        }
        lemma_split_joined_words(init);
        assert forall|j: int| 0 <= j < w.len() implies !is_white_space(#[trigger] w[j]) by {
            assert(ws[ws.len() - 1][j] == w[j]);
        }
        assert(w.len() > 0) by {
            assert(ws[ws.len() - 1] == w);
        }
        lemma_words_without_white_space(w);
        assert(is_white_space(' ')) by {
            assert((' ' as int) == 0x20);
        }
        lemma_words_split_at_white_space(joined(init, " "@), ' ', w);
        assert(joined(ws, " "@) == joined(init, " "@) + seq![' '] + w);
        assert(init + seq![w] =~= ws);
    }
}

} // verus!
