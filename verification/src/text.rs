//! Text building blocks: decimal rendering of integers and joining of strings.

use vstd::prelude::*;

verus! {

/// The ASCII digit for a value below ten.
pub open spec fn digit_char(d: nat) -> char {
    if d == 0 { '0' }
    else if d == 1 { '1' }
    else if d == 2 { '2' }
    else if d == 3 { '3' }
    else if d == 4 { '4' }
    else if d == 5 { '5' }
    else if d == 6 { '6' }
    else if d == 7 { '7' }
    else if d == 8 { '8' }
    else { '9' }
}

/// The decimal rendering of a natural number, without sign or leading zeros,
/// as `format!("{}", n)` writes it.
pub open spec fn decimal(n: nat) -> Seq<char>
    decreases n,
{
    if n < 10 {
        seq![digit_char(n)]
    } else {
        decimal(n / 10).push(digit_char(n % 10))
    }
}

/// The decimal rendering is never empty.
pub proof fn lemma_decimal_nonempty(n: nat)
    ensures
        decimal(n).len() >= 1,
    decreases n,
{
    if n >= 10 {
        lemma_decimal_nonempty(n / 10);
    }
}

/// Distinct digits are distinct characters.
proof fn lemma_digit_injective(a: nat, b: nat)
    requires
        a < 10,
        b < 10,
        digit_char(a) == digit_char(b),
    ensures
        a == b,
{
}

/// Distinct numbers have distinct decimal renderings.
pub proof fn lemma_decimal_injective(a: nat, b: nat)
    requires
        decimal(a) == decimal(b),
    ensures
        a == b,
    decreases a,
{
    if a < 10 && b < 10 {
        assert(decimal(a) == seq![digit_char(a)]);
        assert(decimal(b) == seq![digit_char(b)]);
        assert(seq![digit_char(a)][0] == seq![digit_char(b)][0]);
        lemma_digit_injective(a, b);
    } else if a < 10 {
        lemma_decimal_nonempty(b / 10);
        assert(decimal(b).len() >= 2);
    } else if b < 10 {
        lemma_decimal_nonempty(a / 10);
        assert(decimal(a).len() >= 2);
    } else {
        assert(decimal(a).last() == digit_char(a % 10));
        assert(decimal(b).last() == digit_char(b % 10));
        assert(decimal(a).drop_last() =~= decimal(a / 10));
        assert(decimal(b).drop_last() =~= decimal(b / 10));
        lemma_digit_injective(a % 10, b % 10);
        lemma_decimal_injective(a / 10, b / 10);
    }
}

/// The number that a string of decimal digits denotes, most significant
/// digit first; each character counts by its distance from `'0'`.
pub open spec fn digits_value(s: Seq<char>) -> int
    decreases s.len(),
{
    if s.len() == 0 {
        0
    } else {
        digits_value(s.drop_last()) * 10 + ((s.last() as int) - ('0' as int))
    }
}

/// A digit character stands at its value's distance from `'0'`.
proof fn lemma_digit_value(d: nat)
    requires
        d < 10,
    ensures
        (digit_char(d) as int) - ('0' as int) == d,
{
    assert(('0' as int) == 48);
    assert(('9' as int) == 57);
}

/// Law: the decimal rendering of `n` reads back as `n`.
pub proof fn lemma_decimal_reads_back(n: nat)
    ensures
        digits_value(decimal(n)) == n,
    decreases n,
{
    if n < 10 {
        let s = decimal(n);
        assert(s.drop_last() =~= Seq::<char>::empty());
        assert(digits_value(s.drop_last()) == 0);
        lemma_digit_value(n);
        assert(digits_value(s) == digits_value(s.drop_last()) * 10 + ((s.last() as int) - ('0' as int)));
    } else {
        let s = decimal(n);
        lemma_digit_value(n % 10);
        lemma_decimal_reads_back(n / 10);
        assert(s.drop_last() =~= decimal(n / 10));
        assert(s.last() == digit_char(n % 10));
        assert(digits_value(s) == digits_value(s.drop_last()) * 10 + ((s.last() as int) - ('0' as int)));
    }
}

/// Appends one character to a string (`String::push`).
#[verifier::external_body]
fn push_char(s: &mut String, c: char)
    ensures
        final(s)@ == old(s)@.push(c),
{
    s.push(c);
}

fn digit_of(d: u64) -> (c: char)
    requires
        d < 10,
    ensures
        c == digit_char(d as nat),
{
    if d == 0 { '0' }
    else if d == 1 { '1' }
    else if d == 2 { '2' }
    else if d == 3 { '3' }
    else if d == 4 { '4' }
    else if d == 5 { '5' }
    else if d == 6 { '6' }
    else if d == 7 { '7' }
    else if d == 8 { '8' }
    else { '9' }
}

/// Appends the decimal rendering of `n` to `out`.
pub fn push_decimal(out: &mut String, n: u64)
    ensures
        final(out)@ == old(out)@ + decimal(n as nat),
    decreases n,
{
    if n < 10 {
        push_char(out, digit_of(n));
    } else {
        push_decimal(out, n / 10);
        push_char(out, digit_of(n % 10));
        assert(old(out)@ + decimal(n as nat) =~= old(out)@ + decimal((n / 10) as nat) + seq![digit_char((n % 10) as nat)]);
    }
}

/// The decimal rendering of `n` as a new string.
pub fn decimal_string(n: u64) -> (s: String)
    ensures
        s@ == decimal(n as nat),
{
    let mut s = String::new();
    push_decimal(&mut s, n);
    assert(s@ =~= decimal(n as nat));
    s
}

/// `a`, a dash, then `b`.
pub open spec fn dash(a: Seq<char>, b: Seq<char>) -> Seq<char> {
    a + seq!['-'] + b
}

/// A new string holding `a`, a dash, then `b`.
pub fn dashed(a: &str, b: &str) -> (s: String)
    ensures
        s@ == dash(a@, b@),
{
    let mut s = String::from_str(a);
    push_char(&mut s, '-');
    s.append(b);
    s
}

/// The parts joined with `sep` between each two, as `[..].join(sep)` does.
pub open spec fn joined_by(parts: Seq<Seq<char>>, sep: Seq<char>) -> Seq<char>
    decreases parts.len(),
{
    if parts.len() == 0 {
        Seq::empty()
    } else if parts.len() == 1 {
        parts[0]
    } else {
        joined_by(parts.drop_last(), sep) + sep + parts.last()
    }
}

/// The views of a list of strings.
pub open spec fn views(v: Seq<String>) -> Seq<Seq<char>> {
    v.map_values(|s: String| s@)
}

/// Joins the strings with `sep` between each two.
pub fn join_strings(parts: &Vec<String>, sep: &str) -> (s: String)
    ensures
        s@ == joined_by(views(parts@), sep@),
{
    let mut s = String::new();
    let mut i: usize = 0;
    while i < parts.len()
        invariant
            i <= parts@.len(),
            s@ == joined_by(views(parts@).take(i as int), sep@),
        decreases parts@.len() - i,
    {
        let ghost prev = s@;
        if i > 0 {
            s.append(sep);
        }
        s.append(parts[i].as_str());
        proof {
            let t = views(parts@).take((i + 1) as int);
            assert(t.drop_last() =~= views(parts@).take(i as int));
            assert(t.last() == parts@[i as int]@);
            if i == 0 {
                assert(t =~= seq![parts@[0]@]);
            }
        }
        i = i + 1;
    }
    assert(views(parts@).take(parts@.len() as int) =~= views(parts@));
    s
}

/// `s` with every occurrence of `from`, scanning from the left and without
/// overlaps, replaced by `to`, as `str::replace` does for a nonempty
/// pattern.
pub open spec fn replaced(s: Seq<char>, from: Seq<char>, to: Seq<char>) -> Seq<char>
    decreases s.len(),
{
    if from.len() == 0 || s.len() < from.len() {
        s
    } else if s.subrange(0, from.len() as int) == from {
        to + replaced(s.subrange(from.len() as int, s.len() as int), from, to)
    } else {
        seq![s[0]] + replaced(s.subrange(1, s.len() as int), from, to)
    }
}

/// The characters of a string.
pub fn chars_of(s: &str) -> (v: Vec<char>)
    ensures
        v@ == s@,
{
    let n: usize = s.unicode_len();
    let mut v: Vec<char> = Vec::new();
    let mut i: usize = 0;
    while i < n
        invariant
            n == s@.len(),
            i <= n,
            v@ == s@.subrange(0, i as int),
        decreases n - i,
    {
        v.push(s.get_char(i));
        i = i + 1;
        assert(v@ =~= s@.subrange(0, i as int));
    }
    assert(s@.subrange(0, n as int) =~= s@);
    v
}

/// Whether `pat` occurs in `s` at position `i`.
fn matches_at(s: &Vec<char>, i: usize, pat: &Vec<char>) -> (b: bool)
    requires
        i <= s@.len(),
    ensures
        b == (i + pat@.len() <= s@.len() && s@.subrange(i as int, i + pat@.len()) == pat@),
{
    if pat.len() > s.len() - i {
        return false;
    }
    let mut k: usize = 0;
    while k < pat.len()
        invariant
            i + pat@.len() <= s@.len(),
            k <= pat@.len(),
            forall|j: int| 0 <= j < k ==> s@[i + j] == pat@[j],
        decreases pat@.len() - k,
    {
        assert(i + k < s.len());
        if s[i + k] != pat[k] {
            assert(s@.subrange(i as int, i + pat@.len())[k as int] != pat@[k as int]);
            return false;
        }
        k = k + 1;
    }
    assert(s@.subrange(i as int, i + pat@.len()) =~= pat@);
    true
}

/// `s` with every occurrence of the nonempty pattern `from` replaced by `to`.
pub fn replace_all(s: &str, from: &str, to: &str) -> (r: String)
    requires
        from@.len() > 0,
    ensures
        r@ == replaced(s@, from@, to@),
{
    let sv = chars_of(s);
    let pv = chars_of(from);
    let mut r = String::new();
    let mut i: usize = 0;
    proof {
        assert(sv@.subrange(0, sv@.len() as int) =~= s@);
        assert(r@ + replaced(s@, from@, to@) =~= replaced(s@, from@, to@));
    }
    while i < sv.len()
        invariant
            sv@ == s@,
            pv@ == from@,
            pv@.len() > 0,
            i <= sv@.len(),
            r@ + replaced(sv@.subrange(i as int, sv@.len() as int), from@, to@) == replaced(s@, from@, to@),
        decreases sv@.len() - i,
    {
        let ghost rest = sv@.subrange(i as int, sv@.len() as int);
        if matches_at(&sv, i, &pv) {
            proof {
                assert(rest.subrange(0, from@.len() as int) =~= from@);
                assert(rest.subrange(from@.len() as int, rest.len() as int) =~= sv@.subrange(i + from@.len(), sv@.len() as int));
            }
            r.append(to);
            i = i + pv.len();
        } else {
            proof {
                if rest.len() >= from@.len() {
                    assert(rest.subrange(0, from@.len() as int) =~= sv@.subrange(i as int, i + pv@.len()));
                    assert(rest.subrange(1, rest.len() as int) =~= sv@.subrange(i + 1, sv@.len() as int));
                    assert(rest[0] == sv@[i as int]);
                } else {
                    lemma_replaced_short(rest, from@, to@);
                    lemma_replaced_short(rest.subrange(1, rest.len() as int), from@, to@);
                    assert(rest =~= seq![sv@[i as int]] + sv@.subrange(i + 1, sv@.len() as int));
                }
            }
            push_char(&mut r, sv[i]);
            proof {
                assert(r@ + replaced(sv@.subrange(i + 1, sv@.len() as int), from@, to@)
                    =~= (r@.drop_last() + seq![sv@[i as int]]) + replaced(sv@.subrange(i + 1, sv@.len() as int), from@, to@));
            }
            i = i + 1;
        }
    }
    proof {
        assert(sv@.subrange(i as int, sv@.len() as int) =~= Seq::<char>::empty());
        assert(r@ + Seq::<char>::empty() =~= r@);
    }
    r
}

/// Whether `p` occurs in `t`.
pub open spec fn occurs_in(p: Seq<char>, t: Seq<char>) -> bool {
    exists|i: int| 0 <= i && i + p.len() <= t.len() && #[trigger] t.subrange(i, i + p.len()) == p
}

/// A prefix of the result that never holds the first character of the
/// replacement is also a prefix of the input.
proof fn lemma_replaced_prefix(t: Seq<char>, from: Seq<char>, to: Seq<char>, w: Seq<char>)
    requires
        from.len() > 0,
        to.len() > 0,
        w.len() <= replaced(t, from, to).len(),
        replaced(t, from, to).subrange(0, w.len() as int) == w,
        forall|j: int| 0 <= j < w.len() ==> w[j] != to[0],
    ensures
        w.len() <= t.len(),
        t.subrange(0, w.len() as int) == w,
    decreases t.len(),
{
    let r = replaced(t, from, to);
    if w.len() == 0 {
        assert(t.subrange(0, 0) =~= w);
    } else if t.len() < from.len() {
    } else if t.subrange(0, from.len() as int) == from {
        assert(r[0] == to[0]);
        assert(w[0] == r.subrange(0, w.len() as int)[0]);
    } else {
        let rest = t.subrange(1, t.len() as int);
        let r2 = replaced(rest, from, to);
        assert(r == seq![t[0]] + r2);
        let w2 = w.subrange(1, w.len() as int);
        assert(r2.subrange(0, w2.len() as int) =~= r.subrange(0, w.len() as int).subrange(1, w.len() as int));
        lemma_replaced_prefix(rest, from, to, w2);
        assert(w[0] == r[0]);
        assert(t.subrange(0, w.len() as int) =~= seq![t[0]] + rest.subrange(0, w2.len() as int));
        assert(w =~= seq![w[0]] + w2);
    }
}

/// Law: when the replacement never holds the pattern's first character,
/// and the rest of the pattern never holds the replacement's first
/// character, no occurrence of the pattern is left after replacing.
pub proof fn lemma_replaced_leaves_no_occurrence(s: Seq<char>, from: Seq<char>, to: Seq<char>)
    requires
        from.len() > 0,
        to.len() > 0,
        forall|j: int| 0 <= j < to.len() ==> to[j] != from[0],
        forall|j: int| 1 <= j < from.len() ==> from[j] != to[0],
    ensures
        !occurs_in(from, replaced(s, from, to)),
    decreases s.len(),
{
    let r = replaced(s, from, to);
    if s.len() < from.len() {
        if occurs_in(from, r) {
            let i = choose|i: int| 0 <= i && i + from.len() <= r.len() && #[trigger] r.subrange(i, i + from.len()) == from;
        }
    } else if s.subrange(0, from.len() as int) == from {
        let rest = s.subrange(from.len() as int, s.len() as int);
        let r2 = replaced(rest, from, to);
        lemma_replaced_leaves_no_occurrence(rest, from, to);
        if occurs_in(from, r) {
            let i = choose|i: int| 0 <= i && i + from.len() <= r.len() && #[trigger] r.subrange(i, i + from.len()) == from;
            if i < to.len() {
                assert(r[i] == to[i]);
                assert(r.subrange(i, i + from.len())[0] == r[i]);
            } else {
                let k: int = i - to.len();
                assert(r2.subrange(k, k + from.len()) =~= r.subrange(i, i + from.len()));
            }
        }
    } else {
        let rest = s.subrange(1, s.len() as int);
        let r2 = replaced(rest, from, to);
        lemma_replaced_leaves_no_occurrence(rest, from, to);
        if occurs_in(from, r) {
            let i = choose|i: int| 0 <= i && i + from.len() <= r.len() && #[trigger] r.subrange(i, i + from.len()) == from;
            if i >= 1 {
                let k: int = i - 1;
                assert(r2.subrange(k, k + from.len()) =~= r.subrange(i, i + from.len()));
            } else {
                let w = from.subrange(1, from.len() as int);
                assert(r2.subrange(0, w.len() as int) =~= r.subrange(0, from.len() as int).subrange(1, from.len() as int));
                lemma_replaced_prefix(rest, from, to, w);
                assert(s.subrange(0, from.len() as int) =~= seq![s[0]] + rest.subrange(0, w.len() as int));
                assert(s[0] == r[0]);
                assert(r.subrange(0, from.len() as int)[0] == from[0]);
                assert(from =~= seq![from[0]] + w);
            }
        }
    }
}

/// A string shorter than the pattern is left as it is.
proof fn lemma_replaced_short(s: Seq<char>, from: Seq<char>, to: Seq<char>)
    requires
        s.len() < from.len(),
    ensures
        replaced(s, from, to) == s,
{
}

} // verus!
