//! Text without its HTML comments.
use vstd::prelude::*;
use crate::text::{chars_of, occurs_at, stands_at, text_of};

verus! {

/// The first position from `from` on at which `needle` stands in `hay`.
pub open spec fn next_at(hay: Seq<char>, needle: Seq<char>, from: int) -> Option<int>
    decreases hay.len() - from,
{
    if occurs_at(hay, needle, from) {
        Some(from)
    } else if from >= hay.len() {
        None
    } else {
        next_at(hay, needle, from + 1)
    }
}

/// The text from `from` on without its comments. A comment that nothing ends
/// reaches to the end of the text.
pub open spec fn uncommented(s: Seq<char>, from: int) -> Seq<char>
    decreases s.len() - from,
{
    match next_at(s, "<!--"@, from) {
        None => s.skip(from),
        Some(open) => match next_at(s, "-->"@, open + 4) {
            Some(close) if from <= open < close && close + 3 <= s.len() => s.subrange(from, open)
                + uncommented(s, close + 3),
            _ => s.subrange(from, open),
        },
    }
}

proof fn lemma_next_at(hay: Seq<char>, needle: Seq<char>, from: int)
    ensures
        match next_at(hay, needle, from) {
            Some(at) => from <= at && occurs_at(hay, needle, at),
            None => true,
        },
    decreases hay.len() - from,
{
    if !occurs_at(hay, needle, from) && from < hay.len() {
        lemma_next_at(hay, needle, from + 1);
    }
}

fn find_from(hay: &Vec<char>, needle: &Vec<char>, from: usize) -> (r: Option<usize>)
    requires
        from <= hay@.len(),
        needle@.len() > 0,
    ensures
        match r {
            Some(at) => next_at(hay@, needle@, from as int) == Some(at as int) && from <= at && at
                + needle@.len() <= hay@.len(),
            None => next_at(hay@, needle@, from as int) is None,
        },
{
    let n: usize = hay.len();
    let m: usize = needle.len();
    let mut at: usize = from;
    while at < n && m <= n - at
        invariant
            n == hay@.len(),
            m == needle@.len(),
            m > 0,
            from <= at <= n,
            next_at(hay@, needle@, from as int) == next_at(hay@, needle@, at as int),
        decreases n - at,
    {
        if stands_at(hay, needle, at) {
            return Some(at);
        }
        at = at + 1;
    }
    proof {
        lemma_next_at(hay@, needle@, at as int);
    }
    None
}

/// A text without its HTML comments.
pub fn strip_html_comments(s: &str) -> (r: String)
    ensures
        r@ == uncommented(s@, 0),
{
    let c = chars_of(s);
    let opening = chars_of("<!--");
    let closing = chars_of("-->");
    proof {
        reveal_strlit("<!--");
        reveal_strlit("-->");
    }
    let n: usize = c.len();
    let mut r: String = String::new();
    let mut from: usize = 0;
    assert(r@ + uncommented(s@, 0) =~= uncommented(s@, 0));
    loop
        invariant
            c@ == s@,
            n == s@.len(),
            opening@ == "<!--"@,
            closing@ == "-->"@,
            "<!--"@.len() == 4,
            "-->"@.len() == 3,
            from <= n,
            r@ + uncommented(s@, from as int) == uncommented(s@, 0),
        decreases n - from,
    {
        match find_from(&c, &opening, from) {
            None => {
                r.append(text_of(&c, from, n).as_str());
                assert(s@.subrange(from as int, n as int) =~= s@.skip(from as int));
                return r;
            },
            Some(open) => {
                let ghost before = r@;
                let kept = text_of(&c, from, open);
                r.append(kept.as_str());
                match find_from(&c, &closing, open + 4) {
                    None => {
                        return r;
                    },
                    Some(close) => {
                        proof {
                            assert(r@ + uncommented(s@, close + 3) =~= before + (s@.subrange(
                                from as int,
                                open as int,
                            ) + uncommented(s@, close + 3)));
                        }
                        from = close + 3;
                    },
                }
            },
        }
    }
}

/// The next place of a text is the first from there on at which it stands, if there is
/// one.
pub proof fn law_the_next_place_is_the_first(
    hay: Seq<char>,
    needle: Seq<char>,
    from: int,
    at: int,
)
    requires
        0 <= from <= at,
        from <= hay.len(),
        forall|k: int| from <= k < at ==> !#[trigger] occurs_at(hay, needle, k),
    ensures
        occurs_at(hay, needle, at) ==> next_at(hay, needle, from) == Some(at),
        at > hay.len() ==> next_at(hay, needle, from) is None,
    decreases at - from,
{
    if from < at {
        assert(!occurs_at(hay, needle, from));
        if from < hay.len() {
            law_the_next_place_is_the_first(hay, needle, from + 1, at);
        }
    }
}

/// A text is kept up to its first comment and goes on behind the end of that; a comment
/// that nothing ends reaches to the end, and a text without a comment is kept whole.
pub proof fn law_comments_are_cut_out(s: Seq<char>, from: int, open: int, close: int)
    requires
        0 <= from <= s.len(),
        from <= open,
        open + 4 <= close,
        forall|k: int| from <= k < open ==> !#[trigger] occurs_at(s, "<!--"@, k),
    ensures
        open > s.len() ==> uncommented(s, from) == s.skip(from),
        occurs_at(s, "<!--"@, open) && (forall|k: int|
            open + 4 <= k < close ==> !#[trigger] occurs_at(s, "-->"@, k)) ==> {
            &&& occurs_at(s, "-->"@, close) ==> uncommented(s, from) == s.subrange(from, open)
                + uncommented(s, close + 3)
            &&& close > s.len() ==> uncommented(s, from) == s.subrange(from, open)
        },
{
    reveal_strlit("<!--");
    reveal_strlit("-->");
    law_the_next_place_is_the_first(s, "<!--"@, from, open);
    if occurs_at(s, "<!--"@, open) && forall|k: int|
        open + 4 <= k < close ==> !#[trigger] occurs_at(s, "-->"@, k) {
        law_the_next_place_is_the_first(s, "-->"@, open + 4, close);
    }
}

} // verus!
