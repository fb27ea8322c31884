//! Small verified text utilities: comparison, splitting, trimming and number parsing.
use vstd::prelude::*;

verus! {

/// Whether `c` is a separator of a comma- or space-separated list.
pub open spec fn is_list_separator(c: char) -> bool {
    c == ',' || c == ' '
}

/// Whether `c` has the Unicode `White_Space` property (what `char::is_whitespace` tests).
pub open spec fn is_white(c: char) -> bool {
    ('\u{9}' <= c && c <= '\u{d}') || c == ' ' || c == '\u{85}' || c == '\u{a0}'
        || c == '\u{1680}' || ('\u{2000}' <= c && c <= '\u{200a}') || c == '\u{2028}'
        || c == '\u{2029}' || c == '\u{202f}' || c == '\u{205f}' || c == '\u{3000}'
}

/// `cur` as a one-element sequence, or nothing when it is empty.
pub open spec fn keep_nonempty(cur: Seq<char>) -> Seq<Seq<char>> {
    if cur.len() == 0 {
        Seq::empty()
    } else {
        seq![cur]
    }
}

/// The non-empty runs of `s` between list separators, after the partial run `cur`.
pub open spec fn list_fields_from(s: Seq<char>, cur: Seq<char>) -> Seq<Seq<char>>
    decreases s.len(),
{
    if s.len() == 0 {
        keep_nonempty(cur)
    } else if is_list_separator(s[0]) {
        keep_nonempty(cur) + list_fields_from(s.drop_first(), Seq::empty())
    } else {
        list_fields_from(s.drop_first(), cur.push(s[0]))
    }
}

/// The non-empty runs of `s` between commas and spaces, in order.
pub open spec fn list_fields(s: Seq<char>) -> Seq<Seq<char>> {
    list_fields_from(s, Seq::empty())
}

/// `s` without its leading white space.
pub open spec fn trim_start(s: Seq<char>) -> Seq<char>
    decreases s.len(),
{
    if s.len() > 0 && is_white(s[0]) {
        trim_start(s.drop_first())
    } else {
        s
    }
}

/// `s` without its trailing white space.
pub open spec fn trim_end(s: Seq<char>) -> Seq<char>
    decreases s.len(),
{
    if s.len() > 0 && is_white(s.last()) {
        trim_end(s.drop_last())
    } else {
        s
    }
}

/// `s` without leading and trailing white space.
pub open spec fn trim(s: Seq<char>) -> Seq<char> {
    trim_end(trim_start(s))
}

/// The trimmed, non-empty pieces of `s` between commas, after the partial piece `cur`.
pub open spec fn comma_entries_from(s: Seq<char>, cur: Seq<char>) -> Seq<Seq<char>>
    decreases s.len(),
{
    if s.len() == 0 {
        keep_nonempty(trim(cur))
    } else if s[0] == ',' {
        keep_nonempty(trim(cur)) + comma_entries_from(s.drop_first(), Seq::empty())
    } else {
        comma_entries_from(s.drop_first(), cur.push(s[0]))
    }
}

/// The pieces of `s` between commas, each trimmed, the empty ones left out.
pub open spec fn comma_entries(s: Seq<char>) -> Seq<Seq<char>> {
    comma_entries_from(s, Seq::empty())
}

/// The value of a sequence of decimal digits.
pub open spec fn digits_value(s: Seq<char>) -> nat
    decreases s.len(),
{
    if s.len() == 0 {
        0
    } else {
        digits_value(s.drop_last()) * 10 + (s.last() as nat - '0' as nat) as nat
    }
}

pub open spec fn is_digit(c: char) -> bool {
    '0' <= c && c <= '9'
}

/// The digits of a decimal number, without its optional leading `+`.
pub open spec fn unsigned_digits(s: Seq<char>) -> Seq<char> {
    if s.len() > 0 && s[0] == '+' {
        s.drop_first()
    } else {
        s
    }
}

/// What `str::parse::<usize>` accepts: an optional `+`, then one or more decimal
/// digits whose value fits in a `usize`.
pub open spec fn parses_as_usize(s: Seq<char>) -> bool {
    let d = unsigned_digits(s);
    &&& d.len() > 0
    &&& forall|i: int| 0 <= i < d.len() ==> is_digit(#[trigger] d[i])
    &&& digits_value(d) <= usize::MAX
}

/// Two strings hold the same characters.
pub fn same_text(a: &str, b: &str) -> (r: bool)
    ensures
        r == (a@ == b@),
{
    let n = a.unicode_len();
    if n != b.unicode_len() {
        return false;
    }
    let mut i: usize = 0;
    while i < n
        invariant
            n == a@.len(),
            n == b@.len(),
            i <= n,
            forall|j: int| 0 <= j < i ==> a@[j] == b@[j],
        decreases n - i,
    {
        if a.get_char(i) != b.get_char(i) {
            return false;
        }
        i = i + 1;
    }
    assert(a@ =~= b@);
    true
}

/// Splits `s` at every comma and space, leaving out empty fields.
pub fn split_csv_like(s: &str) -> (r: Vec<String>)
    ensures
        r@.map_values(|f: String| f@) == list_fields(s@),
{
    let n = s.unicode_len();
    let mut out: Vec<String> = Vec::new();
    let mut start: usize = 0;
    let mut i: usize = 0;
    assert(s@.skip(0) =~= s@);
    assert(s@.subrange(0, 0) =~= Seq::<char>::empty());
    assert(out@.map_values(|f: String| f@) + list_fields(s@) =~= list_fields(s@));
    while i < n
        invariant
            n == s@.len(),
            start <= i <= n,
            out@.map_values(|f: String| f@) + list_fields_from(
                s@.skip(i as int),
                s@.subrange(start as int, i as int),
            ) == list_fields(s@),
        decreases n - i,
    {
        let c = s.get_char(i);
        let ghost cur = s@.subrange(start as int, i as int);
        assert(s@.skip(i as int).drop_first() =~= s@.skip(i + 1));
        if c == ',' || c == ' ' {
            let ghost before = out@.map_values(|f: String| f@);
            if start < i {
                let piece = s.substring_char(start, i).to_owned();
                out.push(piece);
                assert(out@.map_values(|f: String| f@) =~= before + seq![cur]);
            } else {
                assert(out@.map_values(|f: String| f@) =~= before + Seq::<Seq<char>>::empty());
            }
            assert(s@.subrange(i + 1, i + 1) =~= Seq::<char>::empty());
            assert(before + (keep_nonempty(cur) + list_fields_from(s@.skip(i + 1), Seq::empty()))
                =~= (before + keep_nonempty(cur)) + list_fields_from(s@.skip(i + 1), Seq::empty()));
            start = i + 1;
        } else {
            assert(cur.push(c) =~= s@.subrange(start as int, i + 1));
        }
        i = i + 1;
    }
    let ghost before = out@.map_values(|f: String| f@);
    let ghost cur = s@.subrange(start as int, n as int);
    assert(s@.skip(n as int) =~= Seq::<char>::empty());
    if start < n {
        out.push(s.substring_char(start, n).to_owned());
        assert(out@.map_values(|f: String| f@) =~= before + seq![cur]);
    } else {
        assert(before + Seq::<Seq<char>>::empty() =~= before);
    }
    out
}

fn white(c: char) -> (r: bool)
    ensures
        r == is_white(c),
{
    ('\u{9}' <= c && c <= '\u{d}') || c == ' ' || c == '\u{85}' || c == '\u{a0}'
        || c == '\u{1680}' || ('\u{2000}' <= c && c <= '\u{200a}') || c == '\u{2028}'
        || c == '\u{2029}' || c == '\u{202f}' || c == '\u{205f}' || c == '\u{3000}'
}

/// `s` without leading and trailing white space, as `str::trim` gives it.
pub fn trim_text(s: &str) -> (r: String)
    ensures
        r@ == trim(s@),
{
    let n = s.unicode_len();
    let mut a: usize = 0;
    assert(s@.skip(0) =~= s@);
    while a < n && white(s.get_char(a))
        invariant
            n == s@.len(),
            a <= n,
            trim_start(s@) == trim_start(s@.skip(a as int)),
        decreases n - a,
    {
        assert(s@.skip(a as int).drop_first() =~= s@.skip(a + 1));
        a = a + 1;
    }
    assert(trim_start(s@.skip(a as int)) == s@.skip(a as int));
    let mut b: usize = n;
    assert(s@.skip(a as int) =~= s@.subrange(a as int, n as int));
    while b > a && white(s.get_char(b - 1))
        invariant
            n == s@.len(),
            a <= b <= n,
            trim(s@) == trim_end(s@.subrange(a as int, b as int)),
        decreases b - a,
    {
        assert(s@.subrange(a as int, b as int).drop_last() =~= s@.subrange(a as int, b - 1));
        b = b - 1;
    }
    s.substring_char(a, b).to_owned()
}

/// Splits `s` at every comma, trims each piece and leaves out the empty ones.
pub fn split_comma_entries(s: &str) -> (r: Vec<String>)
    ensures
        r@.map_values(|f: String| f@) == comma_entries(s@),
{
    let n = s.unicode_len();
    let mut out: Vec<String> = Vec::new();
    let mut start: usize = 0;
    let mut i: usize = 0;
    assert(s@.skip(0) =~= s@);
    assert(s@.subrange(0, 0) =~= Seq::<char>::empty());
    assert(out@.map_values(|f: String| f@) + comma_entries(s@) =~= comma_entries(s@));
    while i < n
        invariant
            n == s@.len(),
            start <= i <= n,
            out@.map_values(|f: String| f@) + comma_entries_from(
                s@.skip(i as int),
                s@.subrange(start as int, i as int),
            ) == comma_entries(s@),
        decreases n - i,
    {
        let c = s.get_char(i);
        let ghost cur = s@.subrange(start as int, i as int);
        assert(s@.skip(i as int).drop_first() =~= s@.skip(i + 1));
        if c == ',' {
            let ghost before = out@.map_values(|f: String| f@);
            let piece = trim_text(s.substring_char(start, i));
            if piece.unicode_len() > 0 {
                out.push(piece);
                assert(out@.map_values(|f: String| f@) =~= before + seq![trim(cur)]);
            } else {
                assert(out@.map_values(|f: String| f@) =~= before + Seq::<Seq<char>>::empty());
            }
            assert(s@.subrange(i + 1, i + 1) =~= Seq::<char>::empty());
            assert(before + (keep_nonempty(trim(cur)) + comma_entries_from(s@.skip(i + 1), Seq::empty()))
                =~= (before + keep_nonempty(trim(cur))) + comma_entries_from(s@.skip(i + 1), Seq::empty()));
            start = i + 1;
        } else {
            assert(cur.push(c) =~= s@.subrange(start as int, i + 1));
        }
        i = i + 1;
    }
    let ghost before = out@.map_values(|f: String| f@);
    let ghost cur = s@.subrange(start as int, n as int);
    assert(s@.skip(n as int) =~= Seq::<char>::empty());
    let piece = trim_text(s.substring_char(start, n));
    if piece.unicode_len() > 0 {
        out.push(piece);
        assert(out@.map_values(|f: String| f@) =~= before + seq![trim(cur)]);
    } else {
        assert(before + Seq::<Seq<char>>::empty() =~= before);
    }
    out
}

proof fn lemma_digits_value_grows(d: Seq<char>, k: int)
    requires
        0 <= k <= d.len(),
        forall|i: int| 0 <= i < d.len() ==> is_digit(#[trigger] d[i]),
    ensures
        digits_value(d.take(k)) <= digits_value(d),
    decreases d.len() - k,
{
    if k < d.len() {
        lemma_digits_value_grows(d, k + 1);
        assert(d.take(k + 1).drop_last() =~= d.take(k));
        assert(is_digit(d[k]));
    } else {
        assert(d.take(k) =~= d);
    }
}

/// Reads a decimal `usize` the way `str::parse::<usize>` does.
pub fn parse_usize(s: &str) -> (r: Option<usize>)
    ensures
        r is Some <==> parses_as_usize(s@),
        r is Some ==> r->0 == digits_value(unsigned_digits(s@)),
{
    let n = s.unicode_len();
    let mut i: usize = 0;
    if n > 0 && s.get_char(0) == '+' {
        i = 1;
    }
    let ghost d = unsigned_digits(s@);
    assert(d =~= s@.skip(i as int));
    if i == n {
        return None;
    }
    let start = i;
    let mut acc: usize = 0;
    assert(d.take(0) =~= Seq::<char>::empty());
    while i < n
        invariant
            n == s@.len(),
            start <= i <= n,
            d =~= s@.skip(start as int),
            d == unsigned_digits(s@),
            forall|j: int| 0 <= j < i - start ==> is_digit(#[trigger] d[j]),
            acc == digits_value(d.take(i - start)),
        decreases n - i,
    {
        let c = s.get_char(i);
        assert(d[i - start] == c);
        if !('0' <= c && c <= '9') {
            assert(!is_digit(d[i - start]));
            return None;
        }
        let v = (c as u32 - '0' as u32) as usize;
        assert(d.take(i + 1 - start).drop_last() =~= d.take(i - start));
        assert(digits_value(d.take(i + 1 - start)) == acc * 10 + v);
        let next = match acc.checked_mul(10) {
            Some(m) => m.checked_add(v),
            None => None,
        };
        match next {
            Some(x) => {
                acc = x;
            },
            None => {
                assert(digits_value(d.take(i + 1 - start)) > usize::MAX);
                proof {
                    if forall|j: int| 0 <= j < d.len() ==> is_digit(#[trigger] d[j]) {
                        lemma_digits_value_grows(d, i + 1 - start);
                    }
                }
                return None;
            },
        }
        i = i + 1;
    }
    assert(d.take(n - start) =~= d);
    Some(acc)
}

} // verus!
