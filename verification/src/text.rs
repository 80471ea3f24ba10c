//! Small verified string helpers used by the rest of the library.

use vstd::prelude::*;

verus! {

/// Whether `s` begins with `prefix`.
pub open spec fn has_prefix(s: Seq<char>, prefix: Seq<char>) -> bool {
    prefix.len() <= s.len() && s.subrange(0, prefix.len() as int) == prefix
}

/// Character equality of two string slices.
pub fn str_equal(a: &str, b: &str) -> (res: bool)
    ensures
        res == (a@ == b@),
{
    let n = a.unicode_len();
    if n != b.unicode_len() {
        return false;
    }
    let mut i: usize = 0;
    while i < n
        invariant
            n == a@.len(),
            n == b@.len(),
            i <= n,
            forall|j: int| 0 <= j < i ==> a@[j] == b@[j],
        decreases n - i,
    {
        if a.get_char(i) != b.get_char(i) {
            return false;
        }
        i = i + 1;
    }
    assert(a@ =~= b@);
    true
}


/// Whether `s` begins with `prefix`, character by character.
pub fn str_starts_with(s: &str, prefix: &str) -> (res: bool)
    ensures
        res == has_prefix(s@, prefix@),
{
    let n = prefix.unicode_len();
    if n > s.unicode_len() {
        return false;
    }
    let mut i: usize = 0;
    while i < n
        invariant
            n == prefix@.len(),
            n <= s@.len(),
            i <= n,
            forall|j: int| 0 <= j < i ==> s@[j] == prefix@[j],
        decreases n - i,
    {
        if s.get_char(i) != prefix.get_char(i) {
            assert(s@.subrange(0, n as int)[i as int] != prefix@[i as int]);
            return false;
        }
        i = i + 1;
    }
    assert(s@.subrange(0, n as int) =~= prefix@);
    true
}

/// `s` with every leading copy of a non-empty `prefix` removed, as
/// `str::trim_start_matches` does with a string pattern.
pub open spec fn strip_prefix_repeatedly(s: Seq<char>, prefix: Seq<char>) -> Seq<char>
    decreases s.len(),
{
    if prefix.len() > 0 && has_prefix(s, prefix) {
        strip_prefix_repeatedly(s.subrange(prefix.len() as int, s.len() as int), prefix)
    } else {
        s
    }
}

/// `prefix` repeated `k` times.
pub open spec fn repeated(prefix: Seq<char>, k: nat) -> Seq<char>
    decreases k,
{
    if k == 0 {
        Seq::empty()
    } else {
        prefix + repeated(prefix, (k - 1) as nat)
    }
}

/// Removing leading copies of a non-empty prefix leaves a string that no
/// longer begins with it, and the string is some number of copies of the
/// prefix followed by what is left.
pub proof fn lemma_strip_prefix_repeatedly(s: Seq<char>, prefix: Seq<char>)
    requires
        prefix.len() > 0,
    ensures
        !has_prefix(strip_prefix_repeatedly(s, prefix), prefix),
        exists|k: nat| s == repeated(prefix, k) + strip_prefix_repeatedly(s, prefix),
    decreases s.len(),
{
    if has_prefix(s, prefix) {
        let rest = s.subrange(prefix.len() as int, s.len() as int);
        lemma_strip_prefix_repeatedly(rest, prefix);
        let k = choose|k: nat| rest == repeated(prefix, k) + strip_prefix_repeatedly(rest, prefix);
        let tail = strip_prefix_repeatedly(rest, prefix);
        assert(strip_prefix_repeatedly(s, prefix) == tail);
        assert(repeated(prefix, k + 1) == prefix + repeated(prefix, k));
        assert(s =~= s.subrange(0, prefix.len() as int) + rest);
        assert((prefix + repeated(prefix, k)) + tail =~= prefix + (repeated(prefix, k) + tail));
        assert(s =~= repeated(prefix, k + 1) + strip_prefix_repeatedly(s, prefix));
    } else {
        assert(s =~= repeated(prefix, 0) + s);
    }
}

/// Removes every leading copy of `prefix` from `s`.
pub fn trim_start_matches(s: &str, prefix: &str) -> (res: String)
    ensures
        res@ == strip_prefix_repeatedly(s@, prefix@),
{
    let n = prefix.unicode_len();
    if n == 0 {
        return String::from_str(s);
    }
    let mut rest: &str = s;
    while str_starts_with(rest, prefix)
        invariant
            n == prefix@.len(),
            n > 0,
            strip_prefix_repeatedly(rest@, prefix@) == strip_prefix_repeatedly(s@, prefix@),
        decreases rest@.len(),
    {
        let len = rest.unicode_len();
        rest = rest.substring_char(n, len);
    }
    String::from_str(rest)
}

/// The decimal digit character for `d`.
pub open spec fn decimal_digit(d: int) -> char {
    if d == 0 {
        '0'
    } else if d == 1 {
        '1'
    } else if d == 2 {
        '2'
    } else if d == 3 {
        '3'
    } else if d == 4 {
        '4'
    } else if d == 5 {
        '5'
    } else if d == 6 {
        '6'
    } else if d == 7 {
        '7'
    } else if d == 8 {
        '8'
    } else {
        '9'
    }
}

/// The decimal notation of `n`, without sign or leading zeros.
pub open spec fn decimal(n: nat) -> Seq<char>
    decreases n,
{
    if n < 10 {
        seq![decimal_digit(n as int)]
    } else {
        decimal(n / 10).push(decimal_digit((n % 10) as int))
    }
}

/// Whether a character is one of the digits `0` to `9`.
pub open spec fn is_decimal_digit(c: char) -> bool {
    '0' <= c && c <= '9'
}

/// The number a string of decimal digits stands for, most significant
/// digit first, each digit worth its distance from `0`.
pub open spec fn decimal_value(s: Seq<char>) -> int
    decreases s.len(),
{
    if s.len() == 0 {
        0
    } else {
        decimal_value(s.drop_last()) * 10 + (s.last() as int - '0' as int)
    }
}

proof fn lemma_decimal_digit(d: int)
    requires
        0 <= d < 10,
    ensures
        decimal_digit(d) as int == '0' as int + d,
        is_decimal_digit(decimal_digit(d)),
{
}

/// The decimal notation of `n` consists of digits only, reads back as `n`,
/// and has no leading zero (but for `n` = 0 itself, written `0`).
pub proof fn lemma_decimal_reads_back(n: nat)
    ensures
        decimal(n).len() >= 1,
        forall|i: int| 0 <= i < decimal(n).len() ==> is_decimal_digit(#[trigger] decimal(n)[i]),
        decimal_value(decimal(n)) == n,
        decimal(n)[0] == '0' ==> n == 0,
    decreases n,
{
    if n < 10 {
        lemma_decimal_digit(n as int);
        assert(seq![decimal_digit(n as int)].drop_last() =~= Seq::<char>::empty());
        assert(decimal_value(Seq::<char>::empty()) == 0);
    } else {
        let q = n / 10;
        let r = n % 10;
        lemma_decimal_reads_back(q);
        lemma_decimal_digit(r as int);
        let s = decimal(n);
        assert(s.drop_last() =~= decimal(q));
        assert(s.last() == decimal_digit(r as int));
        assert(decimal_value(s) == decimal_value(decimal(q)) * 10 + (s.last() as int - '0' as int));
        assert(n == q * 10 + r);
        assert forall|i: int| 0 <= i < s.len() implies is_decimal_digit(#[trigger] s[i]) by {
            if i < s.len() - 1 {
                assert(s[i] == decimal(q)[i]);
            }
        }
        assert(s[0] == decimal(q)[0]);
    }
}

fn digit_str(d: u32) -> (res: &'static str)
    requires
        d < 10,
    ensures
        res@ == seq![decimal_digit(d as int)],
{
    if d == 0 {
        proof { reveal_strlit("0"); }
        "0"
    } else if d == 1 {
        proof { reveal_strlit("1"); }
        "1"
    } else if d == 2 {
        proof { reveal_strlit("2"); }
        "2"
    } else if d == 3 {
        proof { reveal_strlit("3"); }
        "3"
    } else if d == 4 {
        proof { reveal_strlit("4"); }
        "4"
    } else if d == 5 {
        proof { reveal_strlit("5"); }
        "5"
    } else if d == 6 {
        proof { reveal_strlit("6"); }
        "6"
    } else if d == 7 {
        proof { reveal_strlit("7"); }
        "7"
    } else if d == 8 {
        proof { reveal_strlit("8"); }
        "8"
    } else {
        proof { reveal_strlit("9"); }
        "9"
    }
}

/// Appends the decimal notation of `n` to `s`.
pub fn append_decimal(s: &mut String, n: u32)
    ensures
        final(s)@ == old(s)@ + decimal(n as nat),
    decreases n,
{
    if n >= 10 {
        append_decimal(s, n / 10);
    }
    s.append(digit_str(n % 10));
    assert(decimal(n as nat) =~= if n < 10 {
        seq![decimal_digit(n as int)]
    } else {
        decimal((n / 10) as nat).push(decimal_digit((n % 10) as int))
    });
}

/// The strings of `parts` joined, with `sep` between neighbours.
pub open spec fn joined(parts: Seq<Seq<char>>, sep: Seq<char>) -> Seq<char>
    decreases parts.len(),
{
    if parts.len() == 0 {
        Seq::empty()
    } else if parts.len() == 1 {
        parts[0]
    } else {
        joined(parts.drop_last(), sep) + sep + parts.last()
    }
}

/// The total length of a sequence of strings.
pub open spec fn total_len(parts: Seq<Seq<char>>) -> int
    decreases parts.len(),
{
    if parts.len() == 0 {
        0
    } else {
        total_len(parts.drop_last()) + parts.last().len()
    }
}

/// Joining strings keeps every string whole and puts one separator between
/// each two neighbours: the result is as long as the strings together plus
/// one separator fewer than there are strings, and it ends with the last
/// string.
pub proof fn lemma_joined_length(parts: Seq<Seq<char>>, sep: Seq<char>)
    ensures
        parts.len() > 0 ==> joined(parts, sep).len() == total_len(parts) + (parts.len() - 1) * sep.len(),
        parts.len() == 0 ==> joined(parts, sep).len() == 0,
        parts.len() > 0 ==> joined(parts, sep).subrange(
            joined(parts, sep).len() - parts.last().len(),
            joined(parts, sep).len() as int,
        ) == parts.last(),
    decreases parts.len(),
{
    if parts.len() > 1 {
        lemma_joined_length(parts.drop_last(), sep);
        assert((parts.len() - 1) * sep.len() == (parts.len() - 2) * sep.len() + sep.len()) by (nonlinear_arith);
        let j = joined(parts, sep);
        assert(j.subrange(j.len() - parts.last().len(), j.len() as int) =~= parts.last());
    } else if parts.len() == 1 {
        assert(total_len(parts.drop_last()) == 0);
        assert(parts[0] == parts.last());
        assert(joined(parts, sep).subrange(0, parts.last().len() as int) =~= parts.last());
    }
}

/// The views of a sequence of strings.
pub open spec fn string_views(v: Seq<String>) -> Seq<Seq<char>> {
    v.map_values(|s: String| s@)
}

/// Joins `parts` with `sep` between neighbours, as `[String]::join` does.
pub fn join_strings(parts: &Vec<String>, sep: &str) -> (res: String)
    ensures
        res@ == joined(string_views(parts@), sep@),
{
    let mut res = String::new();
    let ghost views = string_views(parts@);
    let mut i: usize = 0;
    while i < parts.len()
        invariant
            i <= parts@.len(),
            views == string_views(parts@),
            res@ == joined(views.take(i as int), sep@),
        decreases parts@.len() - i,
    {
        assert(views.take(i + 1).drop_last() =~= views.take(i as int));
        if i != 0 {
            res.append(sep);
        }
        res.append(parts[i].as_str());
        i = i + 1;
    }
    assert(views.take(parts@.len() as int) =~= views);
    res
}

/// The value of an optional string.
pub open spec fn opt_view(s: Option<String>) -> Option<Seq<char>> {
    match s {
        Some(t) => Some(t@),
        None => None,
    }
}

/// The value of an optional string, or the empty string.
pub open spec fn view_or_empty(s: Option<String>) -> Seq<char> {
    match s {
        Some(t) => t@,
        None => Seq::empty(),
    }
}

/// The string held, or the empty string.
pub fn string_or_empty(s: Option<String>) -> (res: String)
    ensures
        res@ == view_or_empty(s),
{
    match s {
        Some(t) => t,
        None => String::new(),
    }
}

} // verus!
