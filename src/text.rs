//! Searching a text and splitting it into whitespace-separated words.
use vstd::prelude::*;

use crate::utf16::{chars_of, push_char};

verus! {

/// Whether a character has the Unicode `White_Space` property.
pub open spec fn is_white_space_spec(c: char) -> bool {
    let v = c as u32;
    ||| 0x09 <= v <= 0x0D
    ||| v == 0x20
    ||| v == 0x85
    ||| v == 0xA0
    ||| v == 0x1680
    ||| 0x2000 <= v <= 0x200A
    ||| v == 0x2028
    ||| v == 0x2029
    ||| v == 0x202F
    ||| v == 0x205F
    ||| v == 0x3000
}

/// Whether a character has the Unicode `White_Space` property.
pub fn is_white_space(c: char) -> (r: bool)
    ensures
        r == is_white_space_spec(c),
{
    let v: u32 = c as u32;
    (0x09 <= v && v <= 0x0D) || v == 0x20 || v == 0x85 || v == 0xA0 || v == 0x1680 || (0x2000
        <= v && v <= 0x200A) || v == 0x2028 || v == 0x2029 || v == 0x202F || v == 0x205F || v
        == 0x3000
}

/// Scanning a text from the left: the words completed so far, and the word
/// being read (empty between words).
pub open spec fn scan_words(s: Seq<char>) -> (Seq<Seq<char>>, Seq<char>)
    decreases s.len(),
{
    if s.len() == 0 {
        (Seq::empty(), Seq::empty())
    } else {
        let (done, cur) = scan_words(s.drop_last());
        let c = s.last();
        if is_white_space_spec(c) {
            if cur.len() > 0 {
                (done.push(cur), Seq::empty())
            } else {
                (done, cur)
            }
        } else {
            (done, cur.push(c))
        }
    }
}

/// The maximal runs of non-whitespace characters of a text, in order.
pub open spec fn words(s: Seq<char>) -> Seq<Seq<char>> {
    let (done, cur) = scan_words(s);
    if cur.len() > 0 {
        done.push(cur)
    } else {
        done
    }
}

/// The views of a sequence of strings.
pub open spec fn strings_view(v: Seq<String>) -> Seq<Seq<char>> {
    v.map_values(|s: String| s@)
}

/// Every word is non-empty and holds no whitespace.
pub proof fn lemma_words_well_formed(s: Seq<char>)
    ensures
        forall|k: int| 0 <= k < words(s).len() ==> #[trigger] words(s)[k].len() > 0,
        forall|k: int, j: int|
            0 <= k < words(s).len() && 0 <= j < words(s)[k].len() ==> !is_white_space_spec(
                #[trigger] words(s)[k][j],
            ),
{
    lemma_scan_words_well_formed(s);
    let (done, cur) = scan_words(s);
    if cur.len() > 0 {
        assert forall|k: int| 0 <= k < done.len() implies done.push(cur)[k] == done[k] by {}
    }
}

proof fn lemma_scan_words_well_formed(s: Seq<char>)
    ensures
        forall|k: int| 0 <= k < scan_words(s).0.len() ==> #[trigger] scan_words(s).0[k].len() > 0,
        forall|k: int, j: int|
            0 <= k < scan_words(s).0.len() && 0 <= j < scan_words(s).0[k].len()
                ==> !is_white_space_spec(#[trigger] scan_words(s).0[k][j]),
        forall|j: int|
            0 <= j < scan_words(s).1.len() ==> !is_white_space_spec(#[trigger] scan_words(s).1[j]),
    decreases s.len(),
{
    if s.len() > 0 {
        lemma_scan_words_well_formed(s.drop_last());
        let (done, cur) = scan_words(s.drop_last());
        let c = s.last();
        if is_white_space_spec(c) && cur.len() > 0 {
            assert forall|k: int| 0 <= k < done.push(cur).len() implies #[trigger] done.push(
                cur,
            )[k].len() > 0 by {
                if k < done.len() {
                    assert(done.push(cur)[k] == done[k]);
                }
            }
            assert forall|k: int, j: int|
                0 <= k < done.push(cur).len() && 0 <= j < done.push(cur)[k].len()
                    implies !is_white_space_spec(#[trigger] done.push(cur)[k][j]) by {
                if k < done.len() {
                    assert(done.push(cur)[k] == done[k]);
                }
            }
        } else if !is_white_space_spec(c) {
            assert forall|j: int| 0 <= j < cur.push(c).len() implies !is_white_space_spec(
                #[trigger] cur.push(c)[j],
            ) by {
                if j < cur.len() {
                    assert(cur.push(c)[j] == cur[j]);
                }
            }
        }
    }
}

/// Splits a text into its whitespace-separated words.
pub fn split_whitespace(s: &str) -> (r: Vec<String>)
    ensures
        strings_view(r@) == words(s@),
{
    let chars = chars_of(s);
    let mut done: Vec<String> = Vec::new();
    let mut cur = String::new();
    let mut in_word = false;
    let mut i: usize = 0;
    while i < chars.len()
        invariant
            chars@ == s@,
            i <= chars@.len(),
            (strings_view(done@), cur@) == scan_words(s@.take(i as int)),
            in_word == (cur@.len() > 0),
        decreases chars@.len() - i,
    {
        proof {
            assert(s@.take(i + 1).drop_last() =~= s@.take(i as int));
        }
        let c = chars[i];
        if is_white_space(c) {
            if in_word {
                done.push(cur);
                cur = String::new();
                in_word = false;
                proof {
                    assert(strings_view(done@) =~= scan_words(s@.take(i + 1)).0);
                }
            }
        } else {
            push_char(&mut cur, c);
            in_word = true;
        }
        i = i + 1;
    }
    proof {
        assert(s@.take(i as int) =~= s@);
    }
    if in_word {
        done.push(cur);
        proof {
            assert(strings_view(done@) =~= words(s@));
        }
    }
    done
}

/// Whether `p` occurs in `t` starting at position `i`.
pub open spec fn occurs_at(t: Seq<char>, p: Seq<char>, i: int) -> bool {
    0 <= i && i + p.len() <= t.len() && t.subrange(i, i + p.len()) == p
}

/// The first position at or after `i` where `p` occurs in `t`.
pub open spec fn find_from(t: Seq<char>, p: Seq<char>, i: int) -> Option<int>
    decreases t.len() + 1 - i,
{
    if i < 0 || i + p.len() > t.len() {
        None
    } else if occurs_at(t, p, i) {
        Some(i)
    } else {
        find_from(t, p, i + 1)
    }
}

/// The first position where `p` occurs in `t`.
pub open spec fn find(t: Seq<char>, p: Seq<char>) -> Option<int> {
    find_from(t, p, 0)
}

/// `find` gives an occurrence, and no earlier one exists.
pub proof fn lemma_find_is_first(t: Seq<char>, p: Seq<char>)
    ensures
        find(t, p) matches Some(i) ==> occurs_at(t, p, i),
        forall|j: int|
            0 <= j && (find(t, p) matches Some(i) ==> j < i) ==> !#[trigger] occurs_at(t, p, j),
{
    lemma_find_from_is_first(t, p, 0);
}

proof fn lemma_find_from_is_first(t: Seq<char>, p: Seq<char>, i: int)
    requires
        0 <= i,
    ensures
        find_from(t, p, i) matches Some(k) ==> occurs_at(t, p, k),
        forall|j: int|
            i <= j && (find_from(t, p, i) matches Some(k) ==> j < k) ==> !#[trigger] occurs_at(
                t,
                p,
                j,
            ),
    decreases t.len() + 1 - i,
{
    if i + p.len() <= t.len() && !occurs_at(t, p, i) {
        lemma_find_from_is_first(t, p, i + 1);
    }
}

/// Whether `p` occurs in `t` at position `i`.
fn matches_at(t: &Vec<char>, p: &Vec<char>, i: usize) -> (r: bool)
    requires
        i + p@.len() <= t@.len(),
    ensures
        r == occurs_at(t@, p@, i as int),
{
    let n: usize = t.len();
    let mut j: usize = 0;
    while j < p.len()
        invariant
            n == t@.len(),
            i + p@.len() <= t@.len(),
            j <= p@.len(),
            forall|k: int| 0 <= k < j ==> t@[i + k] == p@[k],
        decreases p@.len() - j,
    {
        if t[i + j] != p[j] {
            proof {
                assert(t@.subrange(i as int, i + p@.len())[j as int] != p@[j as int]);
            }
            return false;
        }
        j = j + 1;
    }
    proof {
        assert(t@.subrange(i as int, i + p@.len()) =~= p@);
    }
    true
}

/// The first position where `p` occurs in `t`.
pub fn find_chars(t: &Vec<char>, p: &Vec<char>) -> (r: Option<usize>)
    ensures
        r matches Some(i) ==> find(t@, p@) == Some(i as int) && i + p@.len() <= t@.len(),
        r is None ==> find(t@, p@) is None,
{
    if p.len() > t.len() {
        return None;
    }
    let last: usize = t.len() - p.len();
    let mut i: usize = 0;
    loop
        invariant
            last == t@.len() - p@.len(),
            i <= last,
            find(t@, p@) == find_from(t@, p@, i as int),
        decreases last - i,
    {
        if matches_at(t, p, i) {
            return Some(i);
        }
        if i == last {
            return None;
        }
        i = i + 1;
    }
}

} // verus!
