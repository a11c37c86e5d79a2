//! Character-level helpers: Unicode whitespace, trimming and splitting.
use vstd::prelude::*;
use vstd::string::*;

verus! {

/// The characters with the Unicode `White_Space` property.
pub open spec fn is_ws(c: char) -> bool {
    ||| ('\u{9}' <= c && c <= '\u{d}')
    ||| c == ' '
    ||| c == '\u{85}'
    ||| c == '\u{a0}'
    ||| c == '\u{1680}'
    ||| ('\u{2000}' <= c && c <= '\u{200a}')
    ||| c == '\u{2028}'
    ||| c == '\u{2029}'
    ||| c == '\u{202f}'
    ||| c == '\u{205f}'
    ||| c == '\u{3000}'
}

/// `s` without its trailing whitespace.
pub open spec fn trimmed_end(s: Seq<char>) -> Seq<char>
    decreases s.len(),
{
    if s.len() > 0 && is_ws(s.last()) {
        trimmed_end(s.drop_last())
    } else {
        s
    }
}

/// Whether `c` is a Unicode whitespace character.
pub fn is_whitespace_char(c: char) -> (r: bool)
    ensures
        r == is_ws(c),
{
    ('\u{9}' <= c && c <= '\u{d}') || c == ' ' || c == '\u{85}' || c == '\u{a0}'
        || c == '\u{1680}' || ('\u{2000}' <= c && c <= '\u{200a}') || c == '\u{2028}'
        || c == '\u{2029}' || c == '\u{202f}' || c == '\u{205f}' || c == '\u{3000}'
}

proof fn lemma_trimmed_end_prefix(s: Seq<char>, end: int)
    requires
        0 <= end <= s.len(),
        forall|j: int| end <= j < s.len() ==> is_ws(#[trigger] s[j]),
    ensures
        trimmed_end(s) == trimmed_end(s.subrange(0, end)),
    decreases s.len() - end,
{
    if end < s.len() {
        assert(s.drop_last() == s.subrange(0, s.len() - 1));
        lemma_trimmed_end_prefix(s.drop_last(), end);
        assert(s.drop_last().subrange(0, end) == s.subrange(0, end));
    } else {
        assert(s.subrange(0, end) == s);
    }
}

/// A copy of `s` without its trailing whitespace.
pub fn trim_end(s: &str) -> (r: String)
    ensures
        r@ == trimmed_end(s@),
{
    let mut end = s.unicode_len();
    while end > 0 && is_whitespace_char(s.get_char(end - 1))
        invariant
            end <= s@.len(),
            forall|j: int| end <= j < s@.len() ==> is_ws(#[trigger] s@[j]),
        decreases end,
    {
        end = end - 1;
    }
    proof {
        lemma_trimmed_end_prefix(s@, end as int);
        let p = s@.subrange(0, end as int);
        if p.len() > 0 {
            assert(p.last() == s@[end - 1]);
        }
        assert(trimmed_end(p) == p);
    }
    let r = s.substring_char(0, end).to_owned();
    r
}

/// Whether `a` and `b` hold the same characters.
pub fn same_text(a: &str, b: &str) -> (r: bool)
    ensures
        r == (a@ == b@),
{
    let n = a.unicode_len();
    if n != b.unicode_len() {
        return false;
    }
    let mut i: usize = 0;
    while i < n
        invariant
            n == a@.len(),
            n == b@.len(),
            i <= n,
            forall|j: int| 0 <= j < i ==> a@[j] == b@[j],
        decreases n - i,
    {
        if a.get_char(i) != b.get_char(i) {
            return false;
        }
        i = i + 1;
    }
    assert(a@ =~= b@);
    true
}

/// The maximal runs of non-whitespace characters of `s`, in order.
pub open spec fn words(s: Seq<char>) -> Seq<Seq<char>>
    decreases s.len(),
{
    if s.len() == 0 {
        Seq::empty()
    } else {
        let w = words(s.drop_last());
        let c = s.last();
        if is_ws(c) {
            w
        } else if s.len() >= 2 && !is_ws(s[s.len() - 2]) {
            w.update(w.len() - 1, w.last().push(c))
        } else {
            w.push(seq![c])
        }
    }
}

/// The whitespace-separated words of `s`, in order: for a command line, the
/// program followed by its arguments. No quoting is honoured.
pub fn split_words(s: &str) -> (r: Vec<String>)
    ensures
        r@.map_values(|w: String| w@) == words(s@),
{
    let n = s.unicode_len();
    let mut out: Vec<String> = Vec::new();
    let mut in_word = false;
    let mut start: usize = 0;
    let mut i: usize = 0;
    assert(s@.subrange(0, 0) =~= Seq::<char>::empty());
    assert(out@.map_values(|w: String| w@) =~= Seq::<Seq<char>>::empty());
    while i < n
        invariant
            n == s@.len(),
            i <= n,
            start <= i,
            in_word ==> start < i && !is_ws(s@[i - 1]) && words(s@.subrange(0, i as int))
                == out@.map_values(|w: String| w@).push(s@.subrange(start as int, i as int)),
            !in_word ==> (i == 0 || is_ws(s@[i - 1])) && words(s@.subrange(0, i as int))
                == out@.map_values(|w: String| w@),
        decreases n - i,
    {
        let c = s.get_char(i);
        let ghost p = s@.subrange(0, i + 1);
        assert(p.drop_last() =~= s@.subrange(0, i as int));
        assert(p.last() == c);
        if is_whitespace_char(c) {
            if in_word {
                let ghost before = out@;
                out.push(s.substring_char(start, i).to_owned());
                assert(out@.map_values(|w: String| w@) =~= before.map_values(|w: String| w@).push(
                    s@.subrange(start as int, i as int),
                ));
            }
            in_word = false;
        } else {
            if in_word {
                assert(p[p.len() - 2] == s@[i - 1]);
                let ghost w = out@.map_values(|w: String| w@).push(s@.subrange(start as int, i as int));
                assert(s@.subrange(start as int, i as int).push(c) =~= s@.subrange(start as int, i + 1));
                assert(w.last() == s@.subrange(start as int, i as int));
                assert(w.update(w.len() - 1, w.last().push(c)) =~= out@.map_values(|w: String| w@).push(
                    s@.subrange(start as int, i + 1),
                ));
            } else {
                if i > 0 {
                    assert(p[p.len() - 2] == s@[i - 1]);
                }
                assert(s@.subrange(i as int, i + 1) =~= seq![c]);
                start = i;
            }
            in_word = true;
        }
        i = i + 1;
    }
    assert(s@.subrange(0, n as int) =~= s@);
    if in_word {
        let ghost before = out@;
        out.push(s.substring_char(start, n).to_owned());
        assert(out@.map_values(|w: String| w@) =~= before.map_values(|w: String| w@).push(
            s@.subrange(start as int, n as int),
        ));
    }
    out
}

} // verus!
