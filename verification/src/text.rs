//! Text primitives: equality, search, trimming, splitting and decimal numbers,
//! all stated over the sequence of characters that a string holds.
use vstd::prelude::*;

verus! {

/// `String::push`: appends the character at the end and changes nothing else.
pub assume_specification[ String::push ](s: &mut String, c: char)
    ensures
        final(s)@ == old(s)@.push(c),
;

/// The views of a list of strings, in order.
pub open spec fn views(v: Seq<String>) -> Seq<Seq<char>> {
    v.map_values(|s: String| s@)
}

/// The view of an optional string.
pub open spec fn opt_view(s: Option<String>) -> Option<Seq<char>> {
    match s {
        Some(t) => Some(t@),
        None => None,
    }
}

/// The characters of a string, as a vector.
pub fn chars_of(s: &str) -> (v: Vec<char>)
    ensures
        v@ == s@,
{
    let mut v: Vec<char> = Vec::new();
    let n: usize = s.unicode_len();
    let mut i: usize = 0;
    while i < n
        invariant
            n == s@.len(),
            i <= n,
            v@ == s@.take(i as int),
        decreases n - i,
    {
        v.push(s.get_char(i));
        i = i + 1;
        assert(s@.take(i as int) =~= s@.take(i - 1).push(s@[i - 1]));
    }
    assert(s@.take(n as int) =~= s@);
    v
}

/// The string that holds `v[from..to]`.
pub fn text_of(v: &Vec<char>, from: usize, to: usize) -> (s: String)
    requires
        from <= to <= v@.len(),
    ensures
        s@ == v@.subrange(from as int, to as int),
{
    let mut s: String = String::new();
    let mut i: usize = from;
    while i < to
        invariant
            from <= i <= to <= v@.len(),
            s@ == v@.subrange(from as int, i as int),
        decreases to - i,
    {
        s.push(v[i]);
        i = i + 1;
        assert(v@.subrange(from as int, i as int) =~= v@.subrange(from as int, i - 1).push(
            v@[i - 1],
        ));
    }
    s
}

/// Whether two strings hold the same characters.
pub fn same(a: &str, b: &str) -> (r: bool)
    ensures
        r == (a@ == b@),
{
    let n: usize = a.unicode_len();
    if n != b.unicode_len() {
        return false;
    }
    let mut i: usize = 0;
    while i < n
        invariant
            n == a@.len(),
            n == b@.len(),
            i <= n,
            forall|k: int| 0 <= k < i ==> a@[k] == b@[k],
        decreases n - i,
    {
        if a.get_char(i) != b.get_char(i) {
            return false;
        }
        i = i + 1;
    }
    assert(a@ =~= b@);
    true
}

/// A copy of an optional string.
pub fn opt_copy(a: &Option<String>) -> (r: Option<String>)
    ensures
        opt_view(r) == opt_view(*a),
{
    match a {
        Some(s) => Some(s.clone()),
        None => None,
    }
}

/// Whether `needle` stands in `hay` at position `at`.
pub open spec fn occurs_at(hay: Seq<char>, needle: Seq<char>, at: int) -> bool {
    &&& 0 <= at
    &&& at + needle.len() <= hay.len()
    &&& hay.subrange(at, at + needle.len()) == needle
}

/// Whether `needle` stands anywhere in `hay`.
pub open spec fn occurs_in(hay: Seq<char>, needle: Seq<char>) -> bool {
    exists|at: int| occurs_at(hay, needle, at)
}

pub(crate) fn stands_at(hay: &Vec<char>, needle: &Vec<char>, at: usize) -> (r: bool)
    requires
        at + needle@.len() <= hay@.len(),
    ensures
        r == occurs_at(hay@, needle@, at as int),
{
    let total: usize = hay.len();
    let mut i: usize = 0;
    while i < needle.len()
        invariant
            total == hay@.len(),
            at + needle@.len() <= hay@.len(),
            i <= needle@.len(),
            forall|k: int| 0 <= k < i ==> hay@[at + k] == needle@[k],
        decreases needle@.len() - i,
    {
        if hay[at + i] != needle[i] {
            assert(hay@.subrange(at as int, at + needle@.len())[i as int] != needle@[i as int]);
            return false;
        }
        i = i + 1;
    }
    assert(hay@.subrange(at as int, at + needle@.len()) =~= needle@);
    true
}

/// Whether `needle` stands anywhere in `hay`.
pub fn contains(hay: &str, needle: &str) -> (r: bool)
    ensures
        r == occurs_in(hay@, needle@),
{
    let h = chars_of(hay);
    let n = chars_of(needle);
    if n.len() > h.len() {
        return false;
    }
    let last: usize = h.len() - n.len();
    let mut at: usize = 0;
    while at <= last
        invariant
            h@ == hay@,
            n@ == needle@,
            last + n@.len() == h@.len(),
            at <= last + 1,
            forall|k: int| 0 <= k < at ==> !occurs_at(hay@, needle@, k),
        decreases last + 1 - at,
    {
        if stands_at(&h, &n, at) {
            return true;
        }
        if at == last {
            assert(forall|k: int| !occurs_at(hay@, needle@, k));
            return false;
        }
        at = at + 1;
    }
    false
}

/// Whether `s` begins with `prefix`.
pub open spec fn begins_with(s: Seq<char>, prefix: Seq<char>) -> bool {
    occurs_at(s, prefix, 0)
}

/// Whether `s` begins with `prefix`.
pub fn starts_with(s: &str, prefix: &str) -> (r: bool)
    ensures
        r == begins_with(s@, prefix@),
{
    let h = chars_of(s);
    let n = chars_of(prefix);
    if n.len() > h.len() {
        return false;
    }
    stands_at(&h, &n, 0)
}

/// The characters with the Unicode property `White_Space`.
pub open spec fn is_white_space(c: char) -> bool {
    ||| '\u{9}' <= c <= '\u{d}'
    ||| c == ' '
    ||| c == '\u{85}'
    ||| c == '\u{a0}'
    ||| c == '\u{1680}'
    ||| '\u{2000}' <= c <= '\u{200a}'
    ||| c == '\u{2028}'
    ||| c == '\u{2029}'
    ||| c == '\u{202f}'
    ||| c == '\u{205f}'
    ||| c == '\u{3000}'
}

/// Whether `c` has the Unicode property `White_Space`.
pub fn white_space(c: char) -> (r: bool)
    ensures
        r == is_white_space(c),
{
    ('\u{9}' <= c && c <= '\u{d}') || c == ' ' || c == '\u{85}' || c == '\u{a0}' || c
        == '\u{1680}' || ('\u{2000}' <= c && c <= '\u{200a}') || c == '\u{2028}' || c
        == '\u{2029}' || c == '\u{202f}' || c == '\u{205f}' || c == '\u{3000}'
}

/// `s` without the white space at its start.
pub open spec fn trimmed_start(s: Seq<char>) -> Seq<char>
    decreases s.len(),
{
    if s.len() > 0 && is_white_space(s[0]) {
        trimmed_start(s.drop_first())
    } else {
        s
    }
}

/// `s` without the white space at its end.
pub open spec fn trimmed_end(s: Seq<char>) -> Seq<char>
    decreases s.len(),
{
    if s.len() > 0 && is_white_space(s.last()) {
        trimmed_end(s.drop_last())
    } else {
        s
    }
}

/// `s` without the white space at both ends.
pub open spec fn trimmed(s: Seq<char>) -> Seq<char> {
    trimmed_end(trimmed_start(s))
}

/// `s` without the white space at both ends.
pub fn trim(s: &str) -> (r: String)
    ensures
        r@ == trimmed(s@),
{
    let v = chars_of(s);
    let mut from: usize = 0;
    assert(v@.subrange(0, v@.len() as int) =~= s@);
    while from < v.len() && white_space(v[from])
        invariant
            v@ == s@,
            from <= v@.len(),
            trimmed_start(s@) == trimmed_start(v@.subrange(from as int, v@.len() as int)),
        decreases v@.len() - from,
    {
        assert(v@.subrange(from as int, v@.len() as int).drop_first() =~= v@.subrange(
            from + 1,
            v@.len() as int,
        ));
        from = from + 1;
    }
    assert(trimmed_start(s@) == v@.subrange(from as int, v@.len() as int));
    let mut to: usize = v.len();
    while from < to && white_space(v[to - 1])
        invariant
            v@ == s@,
            from <= to <= v@.len(),
            trimmed(s@) == trimmed_end(v@.subrange(from as int, to as int)),
        decreases to - from,
    {
        assert(v@.subrange(from as int, to as int).drop_last() =~= v@.subrange(
            from as int,
            to - 1,
        ));
        to = to - 1;
    }
    text_of(&v, from, to)
}

/// The fields of `s` between separators `sep`: one more than there are
/// separators, so an empty string has one empty field.
pub open spec fn fields(s: Seq<char>, sep: char) -> Seq<Seq<char>>
    decreases s.len(),
{
    if s.len() == 0 {
        seq![Seq::<char>::empty()]
    } else {
        let rest = fields(s.drop_last(), sep);
        if s.last() == sep {
            rest.push(Seq::<char>::empty())
        } else {
            rest.drop_last().push(rest.last().push(s.last()))
        }
    }
}

/// There is always a first field.
pub proof fn lemma_fields_nonempty(s: Seq<char>, sep: char)
    ensures
        fields(s, sep).len() >= 1,
    decreases s.len(),
{
    if s.len() > 0 {
        lemma_fields_nonempty(s.drop_last(), sep);
    }
}

/// The fields of `s` between separators `sep`.
pub fn split_on(s: &str, sep: char) -> (r: Vec<String>)
    ensures
        views(r@) == fields(s@, sep),
{
    let v = chars_of(s);
    let mut done: Vec<String> = Vec::new();
    let mut cur: String = String::new();
    let mut i: usize = 0;
    assert(views(done@).push(cur@) =~= fields(v@.take(0), sep));
    while i < v.len()
        invariant
            v@ == s@,
            i <= v@.len(),
            views(done@).push(cur@) == fields(v@.take(i as int), sep),
        decreases v@.len() - i,
    {
        let c: char = v[i];
        let ghost next = v@.take(i + 1);
        let ghost before = views(done@).push(cur@);
        assert(next.drop_last() =~= v@.take(i as int));
        if c == sep {
            let ghost old_done = done@;
            done.push(cur);
            cur = String::new();
            assert(views(done@) =~= before);
        } else {
            cur.push(c);
            assert(views(done@) =~= before.drop_last());
        }
        assert(views(done@).push(cur@) =~= fields(next, sep));
        i = i + 1;
    }
    assert(v@.take(i as int) =~= s@);
    let ghost all = views(done@).push(cur@);
    done.push(cur);
    assert(views(done@) =~= all);
    done
}

/// The ASCII white space: space, tab, line feed, form feed, carriage return.
pub open spec fn is_ascii_space(c: char) -> bool {
    c == ' ' || c == '\t' || c == '\n' || c == '\u{c}' || c == '\r'
}

/// The nonempty runs of characters between runs of ASCII white space, together
/// with the run that is still open at the end of `s` (empty if `s` ends in
/// white space).
pub open spec fn token_state(s: Seq<char>) -> (Seq<Seq<char>>, Seq<char>)
    decreases s.len(),
{
    if s.len() == 0 {
        (Seq::empty(), Seq::empty())
    } else {
        let (done, open) = token_state(s.drop_last());
        if is_ascii_space(s.last()) {
            (if open.len() == 0 {
                done
            } else {
                done.push(open)
            }, Seq::empty())
        } else {
            (done, open.push(s.last()))
        }
    }
}

/// The tokens of `s`: its nonempty runs of characters between ASCII white space.
pub open spec fn tokens(s: Seq<char>) -> Seq<Seq<char>> {
    let (done, open) = token_state(s);
    if open.len() == 0 {
        done
    } else {
        done.push(open)
    }
}

/// The tokens of `s`: its nonempty runs of characters between ASCII white space.
pub fn split_ascii_space(s: &str) -> (r: Vec<String>)
    ensures
        views(r@) == tokens(s@),
{
    let v = chars_of(s);
    let mut done: Vec<String> = Vec::new();
    let mut cur: String = String::new();
    let mut empty: bool = true;
    let mut i: usize = 0;
    assert(views(done@) =~= Seq::<Seq<char>>::empty());
    while i < v.len()
        invariant
            v@ == s@,
            i <= v@.len(),
            empty == (cur@.len() == 0),
            (views(done@), cur@) == token_state(v@.take(i as int)),
        decreases v@.len() - i,
    {
        let c: char = v[i];
        let ghost next = v@.take(i + 1);
        let ghost before = views(done@);
        assert(next.drop_last() =~= v@.take(i as int));
        if c == ' ' || c == '\t' || c == '\n' || c == '\u{c}' || c == '\r' {
            if !empty {
                let ghost open = cur@;
                done.push(cur);
                assert(views(done@) =~= before.push(open));
            }
            cur = String::new();
            empty = true;
        } else {
            cur.push(c);
            empty = false;
        }
        i = i + 1;
    }
    assert(v@.take(i as int) =~= s@);
    if !empty {
        let ghost before = views(done@);
        let ghost open = cur@;
        done.push(cur);
        assert(views(done@) =~= before.push(open));
    }
    done
}

/// The character of a decimal digit.
pub open spec fn digit(d: nat) -> char {
    (48 + d) as char
}

/// Whether `c` is an ASCII decimal digit.
pub open spec fn is_digit(c: char) -> bool {
    '0' <= c <= '9'
}

/// The number in decimal, without a sign or leading zeros.
pub open spec fn decimal(n: nat) -> Seq<char>
    decreases n,
{
    if n < 10 {
        seq![digit(n)]
    } else {
        decimal(n / 10).push(digit(n % 10))
    }
}

/// The number in decimal, with a minus sign where it is negative.
pub open spec fn signed_decimal(n: int) -> Seq<char> {
    if n < 0 {
        seq!['-'] + decimal((-n) as nat)
    } else {
        decimal(n as nat)
    }
}

fn digit_char(d: u64) -> (c: char)
    requires
        d < 10,
    ensures
        c == digit(d as nat),
{
    if d == 0 {
        '0'
    } else if d == 1 {
        '1'
    } else if d == 2 {
        '2'
    } else if d == 3 {
        '3'
    } else if d == 4 {
        '4'
    } else if d == 5 {
        '5'
    } else if d == 6 {
        '6'
    } else if d == 7 {
        '7'
    } else if d == 8 {
        '8'
    } else {
        '9'
    }
}

/// The number in decimal.
pub fn u64_text(n: u64) -> (s: String)
    ensures
        s@ == decimal(n as nat),
    decreases n,
{
    if n < 10 {
        let mut s: String = String::new();
        s.push(digit_char(n));
        assert(s@ =~= seq![digit(n as nat)]);
        s
    } else {
        let mut s = u64_text(n / 10);
        s.push(digit_char(n % 10));
        s
    }
}

/// The number in decimal, with a minus sign where it is negative.
pub fn i64_text(n: i64) -> (s: String)
    ensures
        s@ == signed_decimal(n as int),
{
    if n < 0 {
        let mut s: String = String::new();
        s.push('-');
        assert(s@ =~= seq!['-']);
        let magnitude: u64 = if n == i64::MIN {
            0x8000_0000_0000_0000u64
        } else {
            (-n) as u64
        };
        let rest = u64_text(magnitude);
        s.append(rest.as_str());
        s
    } else {
        u64_text(n as u64)
    }
}

/// Whether every character is a decimal digit.
pub open spec fn all_digits(s: Seq<char>) -> bool {
    forall|i: int| 0 <= i < s.len() ==> is_digit(#[trigger] s[i])
}

/// The value of a sequence of decimal digits.
pub open spec fn digits_value(s: Seq<char>) -> nat
    decreases s.len(),
{
    if s.len() == 0 {
        0
    } else {
        digits_value(s.drop_last()) * 10 + (s.last() as nat - 48) as nat
    }
}

/// `s` without one leading plus sign.
pub open spec fn unsigned_part(s: Seq<char>) -> Seq<char> {
    if s.len() > 0 && s[0] == '+' {
        s.drop_first()
    } else {
        s
    }
}

/// The number that `s` writes in decimal, with an optional plus sign, where it
/// is at most `max`.
pub open spec fn parsed(s: Seq<char>, max: nat) -> Option<nat> {
    let d = unsigned_part(s);
    if d.len() > 0 && all_digits(d) && digits_value(d) <= max {
        Some(digits_value(d))
    } else {
        None
    }
}

proof fn lemma_prefix_value(s: Seq<char>, i: int)
    requires
        0 <= i <= s.len(),
    ensures
        digits_value(s.take(i)) <= digits_value(s),
    decreases s.len(),
{
    if i == s.len() {
        assert(s.take(i) =~= s);
    } else {
        assert(s.drop_last().take(i) =~= s.take(i));
        lemma_prefix_value(s.drop_last(), i);
    }
}

/// The number that `s` writes in decimal, where it is at most `max`.
pub fn parse_at_most(s: &str, max: u64) -> (r: Option<u64>)
    ensures
        r matches Some(n) ==> parsed(s@, max as nat) == Some(n as nat),
        r is None ==> parsed(s@, max as nat) is None,
{
    let v = chars_of(s);
    let start: usize = if v.len() > 0 && v[0] == '+' {
        1
    } else {
        0
    };
    let ghost d = unsigned_part(s@);
    assert(d =~= v@.subrange(start as int, v@.len() as int));
    if start == v.len() {
        return None;
    }
    let mut value: u64 = 0;
    let mut i: usize = start;
    while i < v.len()
        invariant
            start <= i <= v@.len(),
            start < v@.len(),
            d == v@.subrange(start as int, v@.len() as int),
            d == unsigned_part(s@),
            value <= max,
            value == digits_value(d.take(i - start)),
            forall|k: int| 0 <= k < i - start ==> is_digit(#[trigger] d[k]),
        decreases v@.len() - i,
    {
        let c: char = v[i];
        let ghost at = i - start;
        assert(d[at] == c);
        if !('0' <= c && c <= '9') {
            return None;
        }
        let w: u64 = (c as u64) - 48;
        assert(d.take(at + 1).drop_last() =~= d.take(at));
        assert(d.take(at + 1).last() == c);
        assert(digits_value(d.take(at + 1)) == value * 10 + w);
        if w > max || value > max / 10 || value * 10 > max - w {
            proof {
                lemma_prefix_value(d, at + 1);
            }
            return None;
        }
        value = value * 10 + w;
        i = i + 1;
    }
    assert(d.take(v@.len() - start) =~= d);
    Some(value)
}

proof fn lemma_decimal_digits(n: nat)
    ensures
        decimal(n).len() > 0,
        all_digits(decimal(n)),
        digits_value(decimal(n)) == n,
    decreases n,
{
    if n < 10 {
        reveal_with_fuel(digits_value, 2);
        assert(decimal(n).drop_last() =~= Seq::<char>::empty());
    } else {
        lemma_decimal_digits(n / 10);
        let head = decimal(n / 10);
        assert(decimal(n).drop_last() =~= head);
        assert forall|i: int| 0 <= i < decimal(n).len() implies is_digit(
            #[trigger] decimal(n)[i],
        ) by {
            if i < head.len() {
                assert(decimal(n)[i] == head[i]);
            }
        }
    }
}

/// Reading a number back gives the number that was written.
pub proof fn lemma_decimal_round_trip(n: nat, max: nat)
    requires
        n <= max,
    ensures
        parsed(decimal(n), max) == Some(n),
{
    lemma_decimal_digits(n);
    assert(is_digit(decimal(n)[0]));
}

/// The number written for `n` holds digits only.
pub proof fn lemma_decimal_is_digits(n: nat)
    ensures
        decimal(n).len() > 0,
        all_digits(decimal(n)),
{
    lemma_decimal_digits(n);
}

/// The lower-case form of an ASCII capital letter; any other character itself.
pub open spec fn ascii_lower_char(c: char) -> char {
    if 'A' <= c <= 'Z' {
        (c as nat + 32) as char
    } else {
        c
    }
}

/// `s` with its ASCII capital letters in lower case.
pub open spec fn ascii_lower(s: Seq<char>) -> Seq<char> {
    s.map_values(|c: char| ascii_lower_char(c))
}

fn lower_char(c: char) -> (r: char)
    ensures
        r == ascii_lower_char(c),
{
    if 'A' <= c && c <= 'Z' {
        let b: u8 = (c as u8) + 32;
        b as char
    } else {
        c
    }
}

/// `s` with its ASCII capital letters in lower case.
pub fn to_ascii_lower(s: &str) -> (r: String)
    ensures
        r@ == ascii_lower(s@),
{
    let v = chars_of(s);
    let mut r: String = String::new();
    let mut i: usize = 0;
    assert(r@ =~= ascii_lower(s@.take(0)));
    while i < v.len()
        invariant
            v@ == s@,
            i <= v@.len(),
            r@ == ascii_lower(s@.take(i as int)),
        decreases v@.len() - i,
    {
        r.push(lower_char(v[i]));
        i = i + 1;
        assert(r@ =~= ascii_lower(s@.take(i as int)));
    }
    assert(s@.take(i as int) =~= s@);
    r
}

/// Whether a list of strings holds one that is equal to `s`.
pub fn list_contains(list: &Vec<String>, s: &str) -> (r: bool)
    ensures
        r == views(list@).contains(s@),
{
    let mut i: usize = 0;
    while i < list.len()
        invariant
            i <= list@.len(),
            forall|k: int| 0 <= k < i ==> views(list@)[k] != s@,
        decreases list@.len() - i,
    {
        if same(list[i].as_str(), s) {
            assert(views(list@)[i as int] == s@);
            return true;
        }
        i = i + 1;
    }
    false
}

// ---------------------------------------------------------------------------
// Laws
// ---------------------------------------------------------------------------

/// A text occurs in another exactly if the other is it with something before and
/// something after; it begins the other exactly if nothing is before it.
pub proof fn law_what_occurring_is(
    hay: Seq<char>,
    needle: Seq<char>,
    before: Seq<char>,
    after: Seq<char>,
)
    ensures
        occurs_in(before + needle + after, needle),
        begins_with(needle + after, needle),
        occurs_in(hay, needle) ==> exists|i: int|
            0 <= i && i + needle.len() <= hay.len() && #[trigger] hay.subrange(i, i + needle.len())
                == needle,
        begins_with(hay, needle) ==> needle.len() <= hay.len() && hay.take(needle.len() as int)
            == needle,
{
    let whole = before + needle + after;
    let n = before.len() as int;
    assert(whole.subrange(n, n + needle.len()) =~= needle);
    assert(occurs_at(whole, needle, n));
    assert((needle + after).subrange(0, needle.len() as int) =~= needle);
    if occurs_in(hay, needle) {
        let i = choose|i: int| occurs_at(hay, needle, i);
        assert(hay.subrange(i, i + needle.len()) == needle);
    }
    if begins_with(hay, needle) {
        assert(hay.take(needle.len() as int) =~= hay.subrange(0, needle.len() as int));
    }
}

/// The white space is what Unicode says it is, and the ASCII white space is part of it.
pub proof fn law_what_white_space_is(c: char)
    ensures
        is_white_space(c) <==> {
            let n = c as int;
            9 <= n <= 13 || n == 32 || n == 0x85 || n == 0xa0 || n == 0x1680 || 0x2000 <= n
                <= 0x200a || n == 0x2028 || n == 0x2029 || n == 0x202f || n == 0x205f || n == 0x3000
        },
        is_ascii_space(c) <==> {
            let n = c as int;
            n == 9 || n == 10 || n == 12 || n == 13 || n == 32
        },
        is_ascii_space(c) ==> is_white_space(c),
{
}

proof fn lemma_trimmed_end(s: Seq<char>) -> (to: int)
    ensures
        0 <= to <= s.len(),
        trimmed_end(s) == s.take(to),
        forall|k: int| to <= k < s.len() ==> is_white_space(#[trigger] s[k]),
        to > 0 ==> !is_white_space(s[to - 1]),
    decreases s.len(),
{
    if s.len() > 0 && is_white_space(s.last()) {
        let to = lemma_trimmed_end(s.drop_last());
        assert(s.drop_last().take(to) =~= s.take(to));
        assert forall|k: int| to <= k < s.len() implies is_white_space(#[trigger] s[k]) by {
            if k < s.len() - 1 {
                assert(s.drop_last()[k] == s[k]);
            }
        }
        to
    } else {
        assert(s.take(s.len() as int) =~= s);
        s.len() as int
    }
}

proof fn lemma_trimmed_start(s: Seq<char>) -> (from: int)
    ensures
        0 <= from <= s.len(),
        trimmed_start(s) == s.skip(from),
        forall|k: int| 0 <= k < from ==> is_white_space(#[trigger] s[k]),
        from < s.len() ==> !is_white_space(s[from]),
    decreases s.len(),
{
    if s.len() > 0 && is_white_space(s[0]) {
        let from = lemma_trimmed_start(s.drop_first());
        assert(s.drop_first().skip(from) =~= s.skip(from + 1));
        assert forall|k: int| 0 <= k < from + 1 implies is_white_space(#[trigger] s[k]) by {
            if k > 0 {
                assert(s.drop_first()[k - 1] == s[k]);
            }
        }
        from + 1
    } else {
        assert(s.skip(0) =~= s);
        0
    }
}

/// Trimming cuts white space only, at both ends, and leaves none there. The law gives the
/// bounds of what is left.
pub proof fn law_what_trimming_leaves(s: Seq<char>) -> (b: (int, int))
    ensures
        0 <= b.0 <= b.1 <= s.len(),
        trimmed(s) == s.subrange(b.0, b.1),
        forall|k: int| 0 <= k < s.len() && (k < b.0 || k >= b.1) ==> is_white_space(#[trigger] s[k]),
        b.0 < b.1 ==> !is_white_space(s[b.0]) && !is_white_space(s[b.1 - 1]),
{
    let from = lemma_trimmed_start(s);
    let rest = s.skip(from);
    let to = lemma_trimmed_end(rest);
    assert(rest.take(to) =~= s.subrange(from, from + to));
    assert forall|k: int| 0 <= k < s.len() && (k < from || k >= from + to) implies is_white_space(
        #[trigger] s[k],
    ) by {
        if k >= from {
            assert(rest[k - from] == s[k]);
        }
    }
    if to > 0 {
        assert(rest[0] == s[from]);
        assert(rest[to - 1] == s[from + to - 1]);
    }
    (from, from + to)
}

/// A text without the separator is one field; a separator between two texts parts their
/// fields.
pub proof fn law_what_fields_are(s: Seq<char>, t: Seq<char>, sep: char)
    ensures
        !s.contains(sep) ==> fields(s, sep) == seq![s],
        fields(s.push(sep) + t, sep) == fields(s, sep) + fields(t, sep),
    decreases s.len() + t.len(),
{
    if !s.contains(sep) {
        lemma_one_field(s, sep);
    }
    lemma_fields_parted(s, t, sep);
}

proof fn lemma_one_field(s: Seq<char>, sep: char)
    requires
        !s.contains(sep),
    ensures
        fields(s, sep) == seq![s],
    decreases s.len(),
{
    if s.len() == 0 {
        assert(s =~= Seq::<char>::empty());
    } else {
        let rest = s.drop_last();
        assert(s.contains(s.last()));
        assert forall|i: int| 0 <= i < rest.len() implies rest[i] != sep by {
            assert(s.contains(s[i]));
        }
        lemma_one_field(rest, sep);
        assert(rest.push(s.last()) =~= s);
        assert(fields(s, sep) =~= seq![s]);
    }
}

proof fn lemma_fields_parted(s: Seq<char>, t: Seq<char>, sep: char)
    ensures
        fields(s.push(sep) + t, sep) == fields(s, sep) + fields(t, sep),
    decreases t.len(),
{
    let whole = s.push(sep) + t;
    if t.len() == 0 {
        assert(whole =~= s.push(sep));
        assert(s.push(sep).drop_last() =~= s);
        assert(fields(whole, sep) =~= fields(s, sep) + fields(t, sep));
    } else {
        lemma_fields_parted(s, t.drop_last(), sep);
        lemma_fields_nonempty(t.drop_last(), sep);
        assert(whole.drop_last() =~= s.push(sep) + t.drop_last());
        let a = fields(s, sep);
        let b = fields(t.drop_last(), sep);
        assert((a + b).last() == b.last());
        if t.last() == sep {
            assert(fields(whole, sep) =~= a + fields(t, sep));
        } else {
            assert((a + b).drop_last() =~= a + b.drop_last());
            assert(fields(whole, sep) =~= a + fields(t, sep));
        }
    }
}

/// A text of white space has no token, one without white space is one token, and white
/// space between two texts parts their tokens.
pub proof fn law_what_tokens_are(s: Seq<char>, t: Seq<char>, space: char)
    requires
        is_ascii_space(space),
    ensures
        (forall|i: int| 0 <= i < s.len() ==> !is_ascii_space(#[trigger] s[i])) ==> tokens(s)
            == if s.len() == 0 {
            Seq::<Seq<char>>::empty()
        } else {
            seq![s]
        },
        tokens(s.push(space) + t) == tokens(s) + tokens(t),
{
    if forall|i: int| 0 <= i < s.len() ==> !is_ascii_space(#[trigger] s[i]) {
        lemma_one_token(s);
    }
    lemma_tokens_parted(s, t, space);
}

proof fn lemma_one_token(s: Seq<char>)
    requires
        forall|i: int| 0 <= i < s.len() ==> !is_ascii_space(#[trigger] s[i]),
    ensures
        token_state(s) == (Seq::<Seq<char>>::empty(), s),
    decreases s.len(),
{
    if s.len() == 0 {
        assert(s =~= Seq::<char>::empty());
    } else {
        let rest = s.drop_last();
        assert forall|i: int| 0 <= i < rest.len() implies !is_ascii_space(#[trigger] rest[i]) by {
            assert(rest[i] == s[i]);
        }
        lemma_one_token(rest);
        assert(rest.push(s.last()) =~= s);
    }
}

proof fn lemma_tokens_parted(s: Seq<char>, t: Seq<char>, space: char)
    requires
        is_ascii_space(space),
    ensures
        token_state(s.push(space) + t) == (tokens(s) + token_state(t).0, token_state(t).1),
        tokens(s.push(space) + t) == tokens(s) + tokens(t),
    decreases t.len(),
{
    let whole = s.push(space) + t;
    if t.len() == 0 {
        assert(whole =~= s.push(space));
        assert(s.push(space).drop_last() =~= s);
        assert(tokens(s) + token_state(t).0 =~= tokens(s));
        assert(tokens(s) + tokens(t) =~= tokens(s));
    } else {
        lemma_tokens_parted(s, t.drop_last(), space);
        assert(whole.drop_last() =~= s.push(space) + t.drop_last());
        let before = token_state(t.drop_last());
        assert(tokens(s) + before.0.push(before.1) =~= (tokens(s) + before.0).push(before.1));
        let after = token_state(t);
        assert(tokens(s) + after.0.push(after.1) =~= (tokens(s) + after.0).push(after.1));
    }
}

/// A number is written digit by digit, the lowest last, without a leading zero; a negative
/// one behind a minus sign.
pub proof fn law_how_numbers_are_written(n: nat, d: nat)
    requires
        d < 10,
    ensures
        digit(d) as int == '0' as int + d,
        is_digit(digit(d)),
        decimal(d) == seq![digit(d)],
        n > 0 ==> decimal(10 * n + d) == decimal(n).push(digit(d)),
        n > 0 ==> decimal(n)[0] != '0',
        signed_decimal(n as int) == decimal(n),
        n > 0 ==> signed_decimal(-n) == seq!['-'] + decimal(n),
    decreases n,
{
    if n >= 10 {
        law_how_numbers_are_written(n / 10, n % 10);
        lemma_decimal_digits(n / 10);
    }
    assert((10 * n + d) / 10 == n);
    assert((10 * n + d) % 10 == d);
}

/// A number is read from decimal digits, with one plus sign before them or none, where it
/// is not greater than what is asked for; anything else is no number.
pub proof fn law_how_numbers_are_read(s: Seq<char>, c: char, max: nat)
    ensures
        digits_value(s.push(c)) == digits_value(s) * 10 + (c as nat - 48) as nat,
        digits_value(Seq::empty()) == 0,
        is_digit(c) <==> 48 <= c as int <= 57,
        s.len() > 0 && all_digits(s) && digits_value(s) <= max ==> parsed(s, max) == Some(
            digits_value(s),
        ) && parsed(seq!['+'] + s, max) == Some(digits_value(s)),
        parsed(s, max) is Some ==> {
            let d = if s[0] == '+' {
                s.skip(1)
            } else {
                s
            };
            &&& d.len() > 0
            &&& forall|i: int| 0 <= i < d.len() ==> 48 <= (#[trigger] d[i]) as int <= 57
            &&& parsed(s, max)->0 == digits_value(d)
            &&& parsed(s, max)->0 <= max
        },
{
    assert(s.push(c).drop_last() =~= s);
    assert((seq!['+'] + s).drop_first() =~= s);
    if s.len() > 0 {
        assert(s.drop_first() =~= s.skip(1));
        if all_digits(s) {
            assert(is_digit(s[0]));
        }
    }
    if parsed(s, max) is Some {
        let d = unsigned_part(s);
        assert forall|i: int| 0 <= i < d.len() implies 48 <= (#[trigger] d[i]) as int <= 57 by {
            assert(is_digit(d[i]));
        }
    }
}

/// Lower case moves the ASCII capital letters to their small ones, and nothing else.
pub proof fn law_what_lower_case_is(s: Seq<char>, i: int)
    requires
        0 <= i < s.len(),
    ensures
        ascii_lower(s).len() == s.len(),
        65 <= s[i] as int <= 90 ==> ascii_lower(s)[i] as int == s[i] as int + 32,
        !(65 <= s[i] as int <= 90) ==> ascii_lower(s)[i] == s[i],
{
}

} // verus!
