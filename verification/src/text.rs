//! Text as sequences of characters: comparison, case folding, shortening, numbers.

use vstd::prelude::*;

verus! {

/// `String::push` of std: appends one character at the end of the string.
pub assume_specification[ String::push ](s: &mut String, c: char)
    ensures
        final(s)@ == old(s)@.push(c),
;

/// How two values compare.
#[derive(Clone, Copy, PartialEq, Eq, Structural, Debug)]
pub enum Rank {
    Less,
    Equal,
    Greater,
}

/// One character in ASCII lower case; other characters are unchanged.
pub open spec fn lower_char(c: char) -> char {
    if 'A' <= c && c <= 'Z' {
        (c as u8 + 32) as u8 as char
    } else {
        c
    }
}

/// A text in ASCII lower case.
pub open spec fn lower_text(s: Seq<char>) -> Seq<char> {
    s.map_values(|c: char| lower_char(c))
}

/// Code point order of texts: the first difference decides, a proper prefix comes first.
pub open spec fn text_lt(a: Seq<char>, b: Seq<char>) -> bool
    decreases a.len(),
{
    if b.len() == 0 {
        false
    } else if a.len() == 0 {
        true
    } else if a[0] != b[0] {
        a[0] < b[0]
    } else {
        text_lt(a.drop_first(), b.drop_first())
    }
}

/// The rank of two texts.
pub open spec fn text_rank(a: Seq<char>, b: Seq<char>) -> Rank {
    if text_lt(a, b) {
        Rank::Less
    } else if text_lt(b, a) {
        Rank::Greater
    } else {
        Rank::Equal
    }
}

/// Exactly one of less, equal and greater holds of two texts.
pub proof fn text_order_is_total(a: Seq<char>, b: Seq<char>)
    ensures
        text_lt(a, b) ==> !text_lt(b, a) && a != b,
        !text_lt(a, b) && !text_lt(b, a) ==> a == b,
    decreases a.len(),
{
    if a.len() > 0 && b.len() > 0 && a[0] == b[0] {
        text_order_is_total(a.drop_first(), b.drop_first());
        if a.drop_first() == b.drop_first() {
            assert(a =~= seq![a[0]] + a.drop_first());
            assert(b =~= seq![b[0]] + b.drop_first());
        }
    } else if a.len() == 0 && b.len() == 0 {
        assert(a =~= b);
    }
}

/// The order of texts is transitive.
pub proof fn text_order_is_transitive(a: Seq<char>, b: Seq<char>, c: Seq<char>)
    requires
        text_lt(a, b),
        text_lt(b, c),
    ensures
        text_lt(a, c),
    decreases a.len(),
{
    if a.len() > 0 && a[0] == b[0] && b[0] == c[0] {
        text_order_is_transitive(a.drop_first(), b.drop_first(), c.drop_first());
    }
}

/// Compares two texts by code points.
pub fn compare_text(a: &str, b: &str) -> (r: Rank)
    ensures
        r == text_rank(a@, b@),
{
    broadcast use vstd::string::group_string_axioms;

    let mut left = a.chars();
    let mut right = b.chars();
    loop
        invariant
            text_rank(a@, b@) == text_rank(vstd::std_specs::iter::IteratorSpec::remaining(&left), vstd::std_specs::iter::IteratorSpec::remaining(&right)),
            vstd::std_specs::iter::IteratorSpec::decrease(&left) is Some,
        decreases vstd::std_specs::iter::IteratorSpec::decrease(&left)->0,
    {
        let x = left.next();
        let y = right.next();
        match x {
            None => {
                match y {
                    None => {
                        return Rank::Equal;
                    },
                    Some(_) => {
                        return Rank::Less;
                    },
                }
            },
            Some(p) => {
                match y {
                    None => {
                        return Rank::Greater;
                    },
                    Some(q) => {
                        if p < q {
                            return Rank::Less;
                        }
                        if q < p {
                            return Rank::Greater;
                        }
                    },
                }
            },
        }
    }
}



/// Whether two texts hold the same characters.
pub fn same_text(a: &str, b: &str) -> (r: bool)
    ensures
        r == (a@ == b@),
{
    proof {
        text_order_is_total(a@, b@);
    }
    compare_text(a, b) == Rank::Equal
}

/// The characters of a text.
pub fn chars_of(s: &str) -> (r: Vec<char>)
    ensures
        r@ == s@,
{
    broadcast use vstd::string::group_string_axioms;

    let mut out: Vec<char> = Vec::new();
    let mut it = s.chars();
    loop
        invariant
            out@ + vstd::std_specs::iter::IteratorSpec::remaining(&it) == s@,
            vstd::std_specs::iter::IteratorSpec::decrease(&it) is Some,
        decreases vstd::std_specs::iter::IteratorSpec::decrease(&it)->0,
    {
        let ghost before = vstd::std_specs::iter::IteratorSpec::remaining(&it);
        match it.next() {
            None => {
                assert(out@ == s@);
                return out;
            },
            Some(c) => {
                assert(before =~= seq![c] + before.drop_first());
                out.push(c);
            },
        }
    }
}

/// The text of the characters `from..to` of `v`.
pub fn text_of_range(v: &Vec<char>, from: usize, to: usize) -> (r: String)
    requires
        from <= to <= v.len(),
    ensures
        r@ == v@.subrange(from as int, to as int),
{
    let mut out = String::new();
    let mut i: usize = from;
    while i < to
        invariant
            from <= i <= to <= v.len(),
            out@ == v@.subrange(from as int, i as int),
        decreases to - i,
    {
        out.push(v[i]);
        i = i + 1;
        assert(v@.subrange(from as int, i as int) =~= v@.subrange(from as int, i - 1).push(v@[i - 1]));
    }
    out
}

/// The text that the characters of `v` make.
pub fn text_of(v: &Vec<char>) -> (r: String)
    ensures
        r@ == v@,
{
    let r = text_of_range(v, 0, v.len());
    assert(v@.subrange(0, v@.len() as int) =~= v@);
    r
}

/// Puts one character in ASCII lower case.
pub fn to_lower_char(c: char) -> (r: char)
    ensures
        r == lower_char(c),
{
    if 'A' <= c && c <= 'Z' {
        (c as u8 + 32) as char
    } else {
        c
    }
}

/// Puts a text in ASCII lower case.
pub fn to_lower(s: &str) -> (r: String)
    ensures
        r@ == lower_text(s@),
{
    let v = chars_of(s);
    let mut out = String::new();
    for i in 0..v.len()
        invariant
            v@ == s@,
            out@ == lower_text(s@.take(i as int)),
    {
        out.push(to_lower_char(v[i]));
        assert(lower_text(s@.take(i + 1)) =~= lower_text(s@.take(i as int)).push(lower_char(s@[i as int])));
    }
    assert(s@.take(s@.len() as int) =~= s@);
    out
}

/// The sign that stands for the characters left out of a shortened text.
pub const ELLIPSIS: char = '\u{2026}';

/// A text shortened to `max` characters: a longer one keeps its first `max - 1` characters
/// and ends in an ellipsis.
pub open spec fn shortened(s: Seq<char>, max: nat) -> Seq<char> {
    if s.len() <= max {
        s
    } else {
        s.take(if max == 0 { 0 } else { max - 1 }).push(ELLIPSIS)
    }
}

/// Shortens a text to at most `max` characters.
pub fn truncate(s: &str, max: usize) -> (r: String)
    ensures
        r@ == shortened(s@, max as nat),
{
    let v = chars_of(s);
    if v.len() <= max {
        s.to_owned()
    } else {
        let end: usize = max.saturating_sub(1);
        let mut out = text_of_range(&v, 0, end);
        out.push(ELLIPSIS);
        out
    }
}

/// A limit of at least one bounds the shortened text, and leaves a text alone exactly when it
/// fits. The shortened text starts as the whole does.
pub proof fn shortening_fits(s: Seq<char>, max: nat)
    requires
        max >= 1,
    ensures
        shortened(s, max).len() <= max,
        shortened(s, max) == s <==> s.len() <= max,
        forall|i: int| 0 <= i < max - 1 && i < s.len() ==> #[trigger] shortened(s, max)[i] == s[i],
{
}

/// Shortening twice is shortening once.
pub proof fn shortening_is_idempotent(s: Seq<char>, max: nat)
    ensures
        shortened(shortened(s, max), max) == shortened(s, max),
{
    if max == 0 && s.len() > 0 {
        assert(shortened(shortened(s, max), max) =~= shortened(s, max));
    }
}

// ── Numbers ──────────────────────────────────────────────────────────────────

/// One decimal digit.
pub open spec fn digit(d: int) -> char {
    (48 + d) as u8 as char
}

/// A number in decimal digits.
pub open spec fn decimal(n: nat) -> Seq<char>
    decreases n,
{
    if n < 10 {
        seq![digit(n as int)]
    } else {
        decimal(n / 10).push(digit((n % 10) as int))
    }
}

/// A number below one hundred in two decimal digits.
pub open spec fn two_digits(n: int) -> Seq<char> {
    seq![digit(n / 10), digit(n % 10)]
}

/// Adds a number in decimal digits.
pub fn push_decimal(out: &mut String, n: u64)
    ensures
        final(out)@ == old(out)@ + decimal(n as nat),
    decreases n,
{
    let ghost before = out@;
    if n >= 10 {
        push_decimal(out, n / 10);
    }
    let ghost so_far = out@;
    out.push((48 + (n % 10) as u8) as char);
    assert(out@ =~= before + decimal(n as nat));
}

/// Adds a text.
pub fn push_text(out: &mut String, s: &str)
    ensures
        final(out)@ == old(out)@ + s@,
{
    let v = chars_of(s);
    let ghost before = out@;
    assert(before + s@.take(0) =~= before);
    for i in 0..v.len()
        invariant
            v@ == s@,
            out@ == before + s@.take(i as int),
    {
        out.push(v[i]);
        assert(before + s@.take(i + 1) =~= (before + s@.take(i as int)).push(s@[i as int]));
    }
    assert(s@.take(s@.len() as int) =~= s@);
}

fn push_two_digits(out: &mut String, n: u64)
    requires
        n < 100,
    ensures
        final(out)@ == old(out)@ + two_digits(n as int),
{
    let ghost before = out@;
    out.push((48 + (n / 10) as u8) as char);
    out.push((48 + (n % 10) as u8) as char);
    assert(out@ =~= before + two_digits(n as int));
}

/// A time in seconds as minutes and seconds, with hours in front where there are any.
pub open spec fn timecode(total: nat) -> Seq<char> {
    let h = total / 3600;
    let m = (total % 3600) / 60;
    let s = total % 60;
    if h > 0 {
        decimal(h) + seq![':'] + two_digits(m as int) + seq![':'] + two_digits(s as int)
    } else {
        decimal(m) + seq![':'] + two_digits(s as int)
    }
}

/// Writes a time in seconds.
pub fn format_timecode(total: u64) -> (r: String)
    ensures
        r@ == timecode(total as nat),
{
    let h: u64 = total / 3600;
    let m: u64 = (total % 3600) / 60;
    let s: u64 = total % 60;
    let mut out = String::new();
    if h > 0 {
        push_decimal(&mut out, h);
        out.push(':');
        push_two_digits(&mut out, m);
    } else {
        push_decimal(&mut out, m);
    }
    out.push(':');
    push_two_digits(&mut out, s);
    assert(out@ =~= timecode(total as nat));
    out
}

// ── What the texts are for ───────────────────────────────────────────────────

/// Lower case changes the letters from A to Z alone, each into the small letter of the same
/// name, and nothing in the length or the order of a text.
pub proof fn lower_case_changes_capitals_alone(s: Seq<char>, i: int)
    requires
        0 <= i < s.len(),
    ensures
        lower_text(s).len() == s.len(),
        65 <= s[i] as u32 <= 90 ==> lower_text(s)[i] as u32 == s[i] as u32 + 32,
        !(65 <= s[i] as u32 <= 90) ==> lower_text(s)[i] == s[i],
{
}

/// Two texts agree in front of a place, and there the first ends and the second does not, or has
/// the lower character.
pub open spec fn decided_at(a: Seq<char>, b: Seq<char>, i: int) -> bool {
    &&& 0 <= i <= a.len() && i < b.len()
    &&& forall|j: int| 0 <= j < i ==> #[trigger] a[j] == b[j]
    &&& i == a.len() || a[i] < b[i]
}

/// One text comes before another exactly where they agree up to some place, and there the first
/// ends and the second does not, or has the lower character.
pub proof fn text_order_is_that_of_dictionaries(a: Seq<char>, b: Seq<char>)
    ensures
        text_lt(a, b) <==> exists|i: int| decided_at(a, b, i),
    decreases a.len(),
{
    let c = a.drop_first();
    let d = b.drop_first();
    if b.len() > 0 && a.len() > 0 && a[0] == b[0] {
        text_order_is_that_of_dictionaries(c, d);
        if text_lt(c, d) {
            let i = choose|i: int| decided_at(c, d, i);
            assert forall|j: int| 0 <= j < i + 1 implies #[trigger] a[j] == b[j] by {
                if j > 0 {
                    assert(c[j - 1] == d[j - 1]);
                }
            }
            if i < c.len() {
                assert(c[i] == a[i + 1] && d[i] == b[i + 1]);
            }
            assert(decided_at(a, b, i + 1));
        }
        if exists|i: int| decided_at(a, b, i) {
            let i = choose|i: int| decided_at(a, b, i);
            assert forall|j: int| 0 <= j < i - 1 implies #[trigger] c[j] == d[j] by {
                assert(a[j + 1] == b[j + 1]);
            }
            if i < a.len() {
                assert(c[i - 1] == a[i] && d[i - 1] == b[i]);
            }
            assert(decided_at(c, d, i - 1));
        }
    } else if b.len() > 0 {
        if text_lt(a, b) {
            assert(decided_at(a, b, 0));
        }
        if exists|i: int| decided_at(a, b, i) {
            let i = choose|i: int| decided_at(a, b, i);
            if i > 0 {
                assert(a[0] == b[0]);
            }
        }
    }
}

/// The rank of two texts tells their order, and says that they are equal where they are.
pub proof fn text_rank_tells_the_order(a: Seq<char>, b: Seq<char>)
    ensures
        text_rank(a, b) == Rank::Equal <==> a == b,
        text_rank(a, b) == Rank::Less <==> text_rank(b, a) == Rank::Greater,
        a != b && a.len() <= b.len() && b.take(a.len() as int) == a ==> text_rank(a, b)
            == Rank::Less,
{
    text_order_is_total(a, b);
    if a == b {
        text_order_is_total(a, a);
    }
    if a != b && a.len() <= b.len() && b.take(a.len() as int) == a {
        if a.len() == b.len() {
            assert(b.take(a.len() as int) =~= b);
        }
        text_order_is_that_of_dictionaries(a, b);
        assert forall|j: int| 0 <= j < a.len() implies #[trigger] a[j] == b[j] by {
            assert(b.take(a.len() as int)[j] == a[j]);
        }
        assert(decided_at(a, b, a.len() as int));
    }
}

/// A text that is too long ends, when it is shortened, in the sign for what is left out, and has
/// the full length that is allowed; with no length allowed it is that sign alone.
pub proof fn shortening_marks_what_is_left_out(s: Seq<char>, max: nat)
    requires
        s.len() > max,
    ensures
        shortened(s, max).len() == if max == 0 {
            1
        } else {
            max
        },
        shortened(s, max).last() as u32 == 0x2026,
        forall|i: int|
            0 <= i < shortened(s, max).len() - 1 ==> #[trigger] shortened(s, max)[i] == s[i],
{
}

/// The number that decimal digits stand for, read from the front.
pub open spec fn number_of(s: Seq<char>) -> int
    decreases s.len(),
{
    if s.len() == 0 {
        0
    } else {
        number_of(s.drop_last()) * 10 + (s.last() as u32 - 48)
    }
}

/// A number is written in digits that stand for it, without a zero in front.
pub proof fn decimal_stands_for_its_number(n: nat)
    ensures
        number_of(decimal(n)) == n,
        decimal(n).len() > 0,
        forall|i: int|
            0 <= i < decimal(n).len() ==> 48 <= #[trigger] decimal(n)[i] as u32 <= 57,
        n > 0 ==> decimal(n)[0] as u32 != 48,
    decreases n,
{
    if n < 10 {
        assert(decimal(n).drop_last() =~= Seq::empty());
        assert(number_of(decimal(n).drop_last()) == 0);
        assert(decimal(n).last() as u32 == 48 + n);
    } else {
        decimal_stands_for_its_number(n / 10);
        assert(decimal(n).drop_last() =~= decimal(n / 10));
        assert(decimal(n).last() as u32 == 48 + n % 10);
        assert(n == (n / 10) * 10 + n % 10);
    }
}

/// A time below an hour is written as minutes and two digits of seconds.
pub proof fn short_times_have_minutes_and_seconds(total: nat, m: nat, s: nat)
    requires
        total == m * 60 + s,
        m < 60,
        s < 60,
    ensures
        timecode(total).len() == decimal(m).len() + 3,
        timecode(total).take(decimal(m).len() as int) == decimal(m),
        timecode(total)[decimal(m).len() as int] == ':',
        number_of(timecode(total).skip(decimal(m).len() as int + 1)) == s,
{
    assert(total / 3600 == 0 && (total % 3600) / 60 == m && total % 60 == s);
    two_digits_stand_for_their_number(s as int);
    assert(timecode(total).take(decimal(m).len() as int) =~= decimal(m));
    assert(timecode(total).skip(decimal(m).len() as int + 1) =~= two_digits(s as int));
}

/// A time of an hour or more has its hours in front, and two digits of minutes.
pub proof fn long_times_have_hours_too(total: nat, h: nat, m: nat, s: nat)
    requires
        total == h * 3600 + m * 60 + s,
        h > 0,
        m < 60,
        s < 60,
    ensures
        timecode(total).len() == decimal(h).len() + 6,
        timecode(total).take(decimal(h).len() as int) == decimal(h),
        timecode(total)[decimal(h).len() as int] == ':',
        number_of(
            timecode(total).subrange(decimal(h).len() as int + 1, decimal(h).len() as int + 3),
        ) == m,
        timecode(total)[decimal(h).len() as int + 3] == ':',
        number_of(timecode(total).skip(decimal(h).len() as int + 4)) == s,
{
    assert(total / 3600 == h && (total % 3600) / 60 == m && total % 60 == s);
    two_digits_stand_for_their_number(m as int);
    two_digits_stand_for_their_number(s as int);
    let n = decimal(h).len() as int;
    assert(timecode(total).take(n) =~= decimal(h));
    assert(timecode(total).subrange(n + 1, n + 3) =~= two_digits(m as int));
    assert(timecode(total).skip(n + 4) =~= two_digits(s as int));
}

proof fn two_digits_stand_for_their_number(n: int)
    requires
        0 <= n < 100,
    ensures
        number_of(two_digits(n)) == n,
{
    let t = two_digits(n);
    let f = t.drop_last();
    assert(f =~= seq![digit(n / 10)]);
    assert(f.drop_last() =~= Seq::empty());
    assert(number_of(f.drop_last()) == 0);
    assert(number_of(f) == n / 10);
}

} // verus!
