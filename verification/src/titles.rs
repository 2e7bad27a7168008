//! How alike two titles are, by the words that they share.
use vstd::prelude::*;
use crate::text::{ascii_lower, chars_of, contains, is_digit, list_contains, occurs_in, same, text_of, to_ascii_lower, views};

verus! {

/// An ASCII letter or digit.
pub open spec fn is_alphanumeric(c: char) -> bool {
    ('a' <= c <= 'z') || ('A' <= c <= 'Z') || ('0' <= c <= '9')
}

fn alphanumeric(c: char) -> (r: bool)
    ensures
        r == is_alphanumeric(c),
{
    ('a' <= c && c <= 'z') || ('A' <= c && c <= 'Z') || ('0' <= c && c <= '9')
}

/// `s[a..b]` is a run of letters and digits that reaches no further either way.
pub open spec fn is_run(s: Seq<char>, a: int, b: int) -> bool {
    &&& 0 <= a < b <= s.len()
    &&& forall|k: int| a <= k < b ==> is_alphanumeric(s[k])
    &&& a == 0 || !is_alphanumeric(s[a - 1])
    &&& b == s.len() || !is_alphanumeric(s[b])
}

/// `w` is a run of two characters or more that ends before `end`.
pub open spec fn is_word_before(s: Seq<char>, w: Seq<char>, end: int) -> bool {
    exists|a: int, b: int| #[trigger] is_run(s, a, b) && b <= end && b - a >= 2 && w == s.subrange(a, b)
}

/// The words of a text: its runs of two characters or more.
pub open spec fn words(s: Seq<char>) -> Set<Seq<char>> {
    Set::new(|w: Seq<char>| is_word_before(s, w, s.len() as int))
}

/// Adds a word to a list that holds it at most once.
fn add_word(v: &mut Vec<String>, w: String)
    requires
        views(old(v)@).no_duplicates(),
    ensures
        views(final(v)@).no_duplicates(),
        forall|x: Seq<char>|
            views(final(v)@).contains(x) <==> (views(old(v)@).contains(x) || x == w@),
{
    if !list_contains(v, w.as_str()) {
        let ghost before = views(v@);
        let ghost held = w@;
        v.push(w);
        proof {
            let after = views(v@);
            assert(after =~= before.push(held));
            assert forall|x: Seq<char>| after.contains(x) <==> (before.contains(x) || x == held) by {
                if before.contains(x) {
                    let k = before.index_of(x);
                    assert(after[k] == x);
                }
                if x == held {
                    assert(after[before.len() as int] == x);
                }
                if after.contains(x) {
                    let k = after.index_of(x);
                    if k < before.len() {
                        assert(before[k] == x);
                    }
                }
            }
        }
    }
}

proof fn lemma_run_start_unique(s: Seq<char>, a: int, c: int, b: int)
    requires
        is_run(s, a, b),
        is_run(s, c, b),
    ensures
        a == c,
{
    if a < c {
        assert(is_alphanumeric(s[c - 1]));
    }
    if c < a {
        assert(is_alphanumeric(s[a - 1]));
    }
}

/// Ends the run `s[start..i]` and adds it to the words where it is long enough.
fn end_run(s: &Vec<char>, start: usize, i: usize, v: &mut Vec<String>)
    requires
        start <= i <= s@.len(),
        forall|k: int| start <= k < i ==> is_alphanumeric(s@[k]),
        start == 0 || !is_alphanumeric(s@[start - 1]),
        i == s@.len() || !is_alphanumeric(s@[i as int]),
        views(old(v)@).no_duplicates(),
        forall|w: Seq<char>|
            #![trigger views(old(v)@).contains(w)]
            views(old(v)@).contains(w) <==> is_word_before(s@, w, start as int),
    ensures
        views(final(v)@).no_duplicates(),
        forall|w: Seq<char>|
            #![trigger views(final(v)@).contains(w)]
            views(final(v)@).contains(w) <==> is_word_before(s@, w, i as int),
{
    let ghost before = views(v@);
    let ghost word = s@.subrange(start as int, i as int);
    if i - start >= 2 {
        add_word(v, text_of(s, start, i));
    }
    proof {
        let after = views(v@);
        assert forall|w: Seq<char>| #![trigger after.contains(w)] after.contains(w) <==> is_word_before(
            s@,
            w,
            i as int,
        ) by {
            if is_word_before(s@, w, start as int) {
                let (a, b) = choose|a: int, b: int| #[trigger]
                    is_run(s@, a, b) && b <= start && b - a >= 2 && w == s@.subrange(a, b);
                assert(is_run(s@, a, b) && b <= i);
            }
            if is_word_before(s@, w, i as int) && !is_word_before(s@, w, start as int) {
                let (a, b) = choose|a: int, b: int| #[trigger]
                    is_run(s@, a, b) && b <= i && b - a >= 2 && w == s@.subrange(a, b);
                assert(b > start);
                if b < i {
                    assert(is_alphanumeric(s@[b]));
                }
                assert(is_run(s@, start as int, i as int));
                lemma_run_start_unique(s@, a, start as int, i as int);
            }
            if i - start >= 2 && w == word {
                assert(is_run(s@, start as int, i as int));
            }
        }
    }
}

/// The words of a text, each of them once.
pub fn tokenize(s: &str) -> (v: Vec<String>)
    ensures
        views(v@).no_duplicates(),
        views(v@).to_set() == words(s@),
{
    let c = chars_of(s);
    let n: usize = c.len();
    let mut v: Vec<String> = Vec::new();
    let mut start: usize = 0;
    let mut i: usize = 0;
    assert(views(v@) =~= Seq::empty());
    while i < n
        invariant
            n == c@.len(),
            start <= i <= n,
            forall|k: int| start <= k < i ==> is_alphanumeric(c@[k]),
            start == 0 || !is_alphanumeric(c@[start - 1]),
            views(v@).no_duplicates(),
            forall|w: Seq<char>|
                #![trigger views(v@).contains(w)]
                views(v@).contains(w) <==> is_word_before(c@, w, start as int),
        decreases n - i,
    {
        if !alphanumeric(c[i]) {
            end_run(&c, start, i, &mut v);
            start = i + 1;
            proof {
                assert forall|w: Seq<char>|
                    #![trigger views(v@).contains(w)]
                    views(v@).contains(w) <==> is_word_before(c@, w, start as int) by {
                    if is_word_before(c@, w, start as int) {
                        let (a, b) = choose|a: int, b: int| #[trigger]
                            is_run(c@, a, b) && b <= start && b - a >= 2 && w == c@.subrange(a, b);
                        if b == start {
                            assert(is_alphanumeric(c@[b - 1]));
                        }
                        assert(is_run(c@, a, b) && b <= i);
                    }
                    if is_word_before(c@, w, i as int) {
                        let (a, b) = choose|a: int, b: int| #[trigger]
                            is_run(c@, a, b) && b <= i && b - a >= 2 && w == c@.subrange(a, b);
                        assert(is_run(c@, a, b) && b <= start);
                    }
                }
            }
        }
        i = i + 1;
    }
    end_run(&c, start, n, &mut v);
    assert(views(v@).to_set() =~= words(s@));
    v
}

/// `x` is a word followed by a number: other characters up to `k`, then digits.
pub open spec fn numbered_at(x: Seq<char>, k: int) -> bool {
    &&& 0 < k < x.len()
    &&& forall|i: int| 0 <= i < k ==> !is_digit(x[i])
    &&& forall|i: int| k <= i < x.len() ==> is_digit(x[i])
}

/// `x` and `y` are the same word with different numbers.
pub open spec fn other_number(x: Seq<char>, y: Seq<char>) -> bool {
    exists|k: int| #[trigger]
        numbered_at(x, k) && numbered_at(y, k) && x.take(k) == y.take(k) && x != y
}

/// Some word of `a` occurs in `b` with a different number.
pub open spec fn numbers_differ(a: Set<Seq<char>>, b: Set<Seq<char>>) -> bool {
    exists|x: Seq<char>, y: Seq<char>|
        a.contains(x) && b.contains(y) && #[trigger] other_number(x, y)
}

/// Where the number of a numbered word begins.
fn number_start(x: &Vec<char>) -> (r: Option<usize>)
    ensures
        match r {
            Some(k) => numbered_at(x@, k as int),
            None => forall|k: int| !numbered_at(x@, k),
        },
{
    let n: usize = x.len();
    let mut k: usize = 0;
    while k < n && !('0' <= x[k] && x[k] <= '9')
        invariant
            n == x@.len(),
            k <= n,
            forall|i: int| 0 <= i < k ==> !is_digit(x@[i]),
        decreases n - k,
    {
        k = k + 1;
    }
    if k == 0 || k == n {
        proof {
            assert forall|j: int| !numbered_at(x@, j) by {
                if numbered_at(x@, j) {
                    assert(is_digit(x@[j]));
                    if k == 0 {
                        assert(!is_digit(x@[0]));
                    }
                }
            }
        }
        return None;
    }
    let mut i: usize = k;
    while i < n
        invariant
            n == x@.len(),
            0 < k <= i <= n,
            k < n,
            is_digit(x@[k as int]),
            forall|j: int| 0 <= j < k ==> !is_digit(x@[j]),
            forall|j: int| k <= j < i ==> is_digit(x@[j]),
        decreases n - i,
    {
        if !('0' <= x[i] && x[i] <= '9') {
            proof {
                assert forall|j: int| !numbered_at(x@, j) by {
                    if numbered_at(x@, j) {
                        if j <= i {
                            assert(is_digit(x@[i as int]));
                        } else {
                            assert(!is_digit(x@[k as int]));
                        }
                    }
                }
            }
            return None;
        }
        i = i + 1;
    }
    Some(k)
}

proof fn lemma_number_start_unique(x: Seq<char>, j: int, k: int)
    requires
        numbered_at(x, j),
        numbered_at(x, k),
    ensures
        j == k,
{
    if j < k {
        assert(is_digit(x[j]));
    }
    if k < j {
        assert(is_digit(x[k]));
    }
}

/// Whether `x` and `y` are the same word with different numbers.
fn has_other_number(x: &str, y: &str) -> (r: bool)
    ensures
        r == other_number(x@, y@),
{
    let a = chars_of(x);
    let b = chars_of(y);
    match (number_start(&a), number_start(&b)) {
        (Some(j), Some(k)) => {
            let ghost first = j as int;
            proof {
                if other_number(x@, y@) {
                    let m = choose|m: int| #[trigger]
                        numbered_at(x@, m) && numbered_at(y@, m) && x@.take(m) == y@.take(m) && x@ != y@;
                    lemma_number_start_unique(x@, m, j as int);
                    lemma_number_start_unique(y@, m, k as int);
                }
            }
            if j != k {
                return false;
            }
            let p = text_of(&a, 0, j);
            let q = text_of(&b, 0, k);
            assert(p@ =~= x@.take(j as int));
            assert(q@ =~= y@.take(j as int));
            let r: bool = same(p.as_str(), q.as_str()) && !same(x, y);
            assert(numbered_at(x@, first));
            r
        },
        _ => false,
    }
}

/// Whether some word of `a` occurs in `b` with a different number.
pub fn numeric_mismatch(a: &Vec<String>, b: &Vec<String>) -> (r: bool)
    ensures
        r == numbers_differ(views(a@).to_set(), views(b@).to_set()),
{
    let mut i: usize = 0;
    while i < a.len()
        invariant
            i <= a@.len(),
            forall|p: int, q: int|
                0 <= p < i && 0 <= q < b@.len() ==> !#[trigger] other_number(views(a@)[p], views(b@)[q]),
        decreases a@.len() - i,
    {
        let mut j: usize = 0;
        while j < b.len()
            invariant
                i < a@.len(),
                j <= b@.len(),
                forall|q: int| 0 <= q < j ==> !#[trigger] other_number(views(a@)[i as int], views(b@)[q]),
            decreases b@.len() - j,
        {
            if has_other_number(a[i].as_str(), b[j].as_str()) {
                proof {
                    assert(views(a@)[i as int] == a@[i as int]@);
                    assert(views(b@)[j as int] == b@[j as int]@);
                    assert(views(a@).to_set().contains(views(a@)[i as int]));
                    assert(views(b@).to_set().contains(views(b@)[j as int]));
                }
                return true;
            }
            assert(views(a@)[i as int] == a@[i as int]@);
            assert(views(b@)[j as int] == b@[j as int]@);
            j = j + 1;
        }
        i = i + 1;
    }
    proof {
        let sa = views(a@).to_set();
        let sb = views(b@).to_set();
        if numbers_differ(sa, sb) {
            let (x, y) = choose|x: Seq<char>, y: Seq<char>|
                sa.contains(x) && sb.contains(y) && #[trigger] other_number(x, y);
            let p = views(a@).index_of(x);
            let q = views(b@).index_of(y);
            assert(other_number(views(a@)[p], views(b@)[q]));
        }
    }
    false
}

/// How many words of `a` occur in `b`.
fn count_common(a: &Vec<String>, b: &Vec<String>) -> (r: usize)
    requires
        views(a@).no_duplicates(),
        views(b@).no_duplicates(),
    ensures
        r == views(a@).to_set().intersect(views(b@).to_set()).len(),
        r <= a@.len(),
{
    let ghost all = views(a@);
    let ghost sb = views(b@).to_set();
    let mut count: usize = 0;
    let mut i: usize = 0;
    proof {
        assert(all.take(0).to_set().intersect(sb) =~= Set::empty());
    }
    while i < a.len()
        invariant
            all == views(a@),
            sb == views(b@).to_set(),
            all.no_duplicates(),
            i <= a@.len(),
            count <= i,
            all.take(i as int).to_set().intersect(sb).finite(),
            count == all.take(i as int).to_set().intersect(sb).len(),
        decreases a@.len() - i,
    {
        let common: bool = list_contains(b, a[i].as_str());
        proof {
            let x = all[i as int];
            assert(x == a@[i as int]@);
            let before = all.take(i as int).to_set().intersect(sb);
            let after = all.take(i + 1).to_set().intersect(sb);
            assert forall|w: Seq<char>| all.take(i + 1).contains(w) <==> (all.take(i as int).contains(w)
                || w == x) by {
                if all.take(i + 1).contains(w) {
                    let k = all.take(i + 1).index_of(w);
                    if k < i {
                        assert(all.take(i as int)[k] == w);
                    }
                }
                if all.take(i as int).contains(w) {
                    let k = all.take(i as int).index_of(w);
                    assert(all.take(i + 1)[k] == w);
                }
                if w == x {
                    assert(all.take(i + 1)[i as int] == w);
                }
            }
            if all.take(i as int).contains(x) {
                let k = all.take(i as int).index_of(x);
                assert(all[k] == all[i as int]);
            }
            if sb.contains(x) {
                assert(after =~= before.insert(x));
            } else {
                assert(after =~= before);
            }
        }
        if common {
            count = count + 1;
        }
        i = i + 1;
    }
    assert(all.take(i as int) =~= all);
    count
}

/// The title promises no particular work.
pub open spec fn vague(title: Seq<char>) -> bool {
    let t = ascii_lower(title);
    ||| occurs_in(t, "follow-up"@)
    ||| occurs_in(t, "followup"@)
    ||| occurs_in(t, "polish"@)
    ||| occurs_in(t, "cleanup"@)
    ||| occurs_in(t, "tweak"@)
    ||| occurs_in(t, "wip"@)
    ||| occurs_in(t, "tbd"@)
    ||| occurs_in(t, "misc"@)
}

/// Whether a title promises no particular work.
pub fn is_vague(title: &str) -> (r: bool)
    ensures
        r == vague(title@),
{
    let lower = to_ascii_lower(title);
    let t = lower.as_str();
    contains(t, "follow-up") || contains(t, "followup") || contains(t, "polish") || contains(
        t,
        "cleanup",
    ) || contains(t, "tweak") || contains(t, "wip") || contains(t, "tbd") || contains(t, "misc")
}

/// How many words two titles share, and how many they have together: none where
/// the first is vague, where a word has different numbers in the two, or where
/// they share none.
pub open spec fn overlap(title: Seq<char>, other: Seq<char>) -> Option<(nat, nat)> {
    let a = words(ascii_lower(title));
    let b = words(ascii_lower(other));
    if vague(title) || numbers_differ(a, b) || a.intersect(b).len() == 0 {
        None
    } else {
        Some((a.intersect(b).len(), a.union(b).len()))
    }
}

/// How many words two titles share, and how many they have together.
pub fn title_overlap(title: &str, other: &str) -> (r: Option<(usize, u128)>)
    ensures
        match r {
            Some(p) => overlap(title@, other@) == Some((p.0 as nat, p.1 as nat)) && 0 < p.0 <= p.1 && p.1
                <= 2 * usize::MAX,
            None => overlap(title@, other@) is None,
        },
{
    if is_vague(title) {
        return None;
    }
    let a = tokenize(to_ascii_lower(title).as_str());
    let b = tokenize(to_ascii_lower(other).as_str());
    if numeric_mismatch(&a, &b) {
        return None;
    }
    let shared: usize = count_common(&a, &b);
    if shared == 0 {
        return None;
    }
    let together: u128 = a.len() as u128 + b.len() as u128 - shared as u128;
    proof {
        let sa = views(a@).to_set();
        let sb = views(b@).to_set();
        views(a@).unique_seq_to_set();
        views(b@).unique_seq_to_set();
        vstd::seq_lib::seq_to_set_is_finite(views(a@));
        vstd::seq_lib::seq_to_set_is_finite(views(b@));
        vstd::set_lib::lemma_set_intersect_union_lens(sa, sb);
        assert(sa + sb =~= sa.union(sb));
        assert(sb.intersect(sa) =~= sa.intersect(sb));
        vstd::set_lib::lemma_len_intersect(sb, sa);
    }
    Some((shared, together))
}

/// The words of a text are its runs of ASCII letters and digits that reach no further
/// either way and have two characters or more.
pub proof fn law_what_words_are(s: Seq<char>, w: Seq<char>)
    ensures
        words(s).contains(w) <==> exists|a: int, b: int| #[trigger]
            is_run(s, a, b) && b - a >= 2 && w == s.subrange(a, b),
        forall|a: int, b: int| #[trigger]
            is_run(s, a, b) <==> {
                &&& 0 <= a < b <= s.len()
                &&& forall|k: int| a <= k < b ==> is_alphanumeric(#[trigger] s[k])
                &&& a == 0 || !is_alphanumeric(s[a - 1])
                &&& b == s.len() || !is_alphanumeric(s[b])
            },
        forall|c: char| #[trigger]
            is_alphanumeric(c) <==> 48 <= c as int <= 57 || 65 <= c as int <= 90 || 97 <= c as int
                <= 122,
{
    if exists|a: int, b: int| #[trigger] is_run(s, a, b) && b - a >= 2 && w == s.subrange(a, b) {
        let (a, b) = choose|a: int, b: int| #[trigger]
            is_run(s, a, b) && b - a >= 2 && w == s.subrange(a, b);
        assert(is_word_before(s, w, s.len() as int));
    }
}

/// Two words are the same with different numbers exactly if they are one stem without
/// digits, each followed by digits, and the digits differ.
pub proof fn law_what_another_number_is(stem: Seq<char>, m: Seq<char>, n: Seq<char>)
    requires
        stem.len() > 0,
        forall|i: int| 0 <= i < stem.len() ==> !is_digit(#[trigger] stem[i]),
        m.len() > 0,
        n.len() > 0,
        forall|i: int| 0 <= i < m.len() ==> is_digit(#[trigger] m[i]),
        forall|i: int| 0 <= i < n.len() ==> is_digit(#[trigger] n[i]),
    ensures
        other_number(stem + m, stem + n) <==> m != n,
{
    let k = stem.len() as int;
    let (x, y) = (stem + m, stem + n);
    assert forall|i: int| k <= i < x.len() implies is_digit(x[i]) by {
        assert(x[i] == m[i - k]);
    }
    assert forall|i: int| k <= i < y.len() implies is_digit(y[i]) by {
        assert(y[i] == n[i - k]);
    }
    assert(numbered_at(x, k));
    assert(x.take(k) =~= y.take(k));
    if m != n {
        if x == y {
            assert(x.skip(k) =~= m);
            assert(y.skip(k) =~= n);
        }
    }
}

/// Two words with different numbers have a common stem without digits and end in digits.
pub proof fn law_only_numbers_differ(x: Seq<char>, y: Seq<char>) -> (k: int)
    requires
        other_number(x, y),
    ensures
        0 < k < x.len(),
        k < y.len(),
        x.take(k) == y.take(k),
        x.skip(k) != y.skip(k),
        forall|i: int| 0 <= i < k ==> !is_digit(#[trigger] x[i]),
        forall|i: int| k <= i < x.len() ==> is_digit(#[trigger] x[i]),
        forall|i: int| k <= i < y.len() ==> is_digit(#[trigger] y[i]),
{
    let k = choose|k: int| #[trigger]
        numbered_at(x, k) && numbered_at(y, k) && x.take(k) == y.take(k) && x != y;
    if x.skip(k) == y.skip(k) {
        assert(x =~= x.take(k) + x.skip(k));
        assert(y =~= y.take(k) + y.skip(k));
    }
    k
}

/// The numbers of two titles differ exactly if a word of the one is a word of the other
/// with another number.
pub proof fn law_when_numbers_differ(
    a: Set<Seq<char>>,
    b: Set<Seq<char>>,
    x: Seq<char>,
    y: Seq<char>,
)
    ensures
        a.contains(x) && b.contains(y) && other_number(x, y) ==> numbers_differ(a, b),
        numbers_differ(a, b) ==> exists|v: Seq<char>, w: Seq<char>|
            a.contains(v) && b.contains(w) && #[trigger] other_number(v, w),
{
}

/// A title is vague exactly if it holds one of these words, in whatever case.
pub proof fn law_which_titles_are_vague(title: Seq<char>)
    ensures
        vague(title) <==> {
            let t = ascii_lower(title);
            occurs_in(t, "follow-up"@) || occurs_in(t, "followup"@) || occurs_in(t, "polish"@)
                || occurs_in(t, "cleanup"@) || occurs_in(t, "tweak"@) || occurs_in(t, "wip"@)
                || occurs_in(t, "tbd"@) || occurs_in(t, "misc"@)
        },
{
}

/// Two titles overlap exactly if the first is not vague, no word has another number in the
/// other, and they share a word: then by the words that they share among all their words,
/// whatever the case.
pub proof fn law_how_titles_overlap(title: Seq<char>, other: Seq<char>)
    ensures
        ({
            let a = words(ascii_lower(title));
            let b = words(ascii_lower(other));
            let shared = a.intersect(b);
            &&& overlap(title, other) is Some <==> !vague(title) && !numbers_differ(a, b)
                && shared.len() > 0
            &&& overlap(title, other) is Some ==> (overlap(title, other)->0).0 == shared.len() && (
            overlap(title, other)->0).1 == a.union(b).len()
        }),
{
}

} // verus!
