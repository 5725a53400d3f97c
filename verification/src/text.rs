//! Text primitives used by the command handlers: whitespace, word splitting,
//! prefixes, first lines and decimal integers.
use vstd::prelude::*;

verus! {

/// Unicode `White_Space` property, the notion of whitespace used to split
/// command arguments.
pub open spec fn is_space(c: char) -> bool {
    let u = c as u32;
    ||| 0x09 <= u <= 0x0D
    ||| u == 0x20
    ||| u == 0x85
    ||| u == 0xA0
    ||| u == 0x1680
    ||| 0x2000 <= u <= 0x200A
    ||| u == 0x2028
    ||| u == 0x2029
    ||| u == 0x202F
    ||| u == 0x205F
    ||| u == 0x3000
}

/// Whether `c` is whitespace.
pub fn char_is_space(c: char) -> (b: bool)
    ensures
        b == is_space(c),
{
    let u = c as u32;
    (0x09 <= u && u <= 0x0D) || u == 0x20 || u == 0x85 || u == 0xA0 || u == 0x1680 || (0x2000
        <= u && u <= 0x200A) || u == 0x2028 || u == 0x2029 || u == 0x202F || u == 0x205F || u
        == 0x3000
}

/// Length of the run of non-whitespace characters at the start of `s`.
pub open spec fn word_len(s: Seq<char>) -> nat
    decreases s.len(),
{
    if s.len() == 0 || is_space(s[0]) {
        0
    } else {
        1 + word_len(s.drop_first())
    }
}

/// The words of `s`: its maximal runs of non-whitespace characters, in order.
pub open spec fn words(s: Seq<char>) -> Seq<Seq<char>>
    decreases s.len(),
{
    if s.len() == 0 {
        seq![]
    } else if is_space(s[0]) {
        words(s.drop_first())
    } else {
        let n = word_len(s);
        proof {
            lemma_word_len_bound(s);
        }
        seq![s.take(n as int)] + words(s.skip(n as int))
    }
}

pub proof fn lemma_word_len_bound(s: Seq<char>)
    ensures
        word_len(s) <= s.len(),
        s.len() > 0 && !is_space(s[0]) ==> word_len(s) >= 1,
    decreases s.len(),
{
    if s.len() > 0 && !is_space(s[0]) {
        lemma_word_len_bound(s.drop_first());
    }
}

/// A run of `k` non-whitespace characters that ends the text or is followed
/// by whitespace is exactly the leading word.
pub proof fn lemma_word_len_exact(s: Seq<char>, k: int)
    requires
        0 <= k <= s.len(),
        forall|m: int| 0 <= m < k ==> !is_space(#[trigger] s[m]),
        k == s.len() || is_space(s[k]),
    ensures
        word_len(s) == k,
    decreases k,
{
    if k > 0 {
        let t = s.drop_first();
        assert forall|m: int| 0 <= m < k - 1 implies !is_space(#[trigger] t[m]) by {
            assert(t[m] == s[m + 1]);
        }
        lemma_word_len_exact(t, k - 1);
    }
}

/// The characters of `s`, in order.
pub fn chars_of(s: &str) -> (v: Vec<char>)
    ensures
        v@ == s@,
{
    let mut v: Vec<char> = Vec::new();
    for c in it: s.chars()
        invariant
            v@ == it.seq().take(it.index() as int),
            it.seq() == s@,
    {
        v.push(c);
    }
    v
}

/// The views of a sequence of strings.
pub open spec fn views(v: Seq<String>) -> Seq<Seq<char>> {
    v.map_values(|w: String| w@)
}

/// Splits `s` into its words, as `str::split_whitespace` does.
pub fn split_words(s: &str) -> (res: Vec<String>)
    ensures
        views(res@) == words(s@),
{
    let cs = chars_of(s);
    let n = cs.len();
    let mut res: Vec<String> = Vec::new();
    let mut i: usize = 0;
    assert(s@.skip(0) =~= s@);
    assert(views(res@) =~= Seq::<Seq<char>>::empty());
    while i < n
        invariant
            cs@ == s@,
            n == cs.len(),
            i <= n,
            words(s@) == views(res@) + words(s@.skip(i as int)),
        decreases n - i,
    {
        if char_is_space(cs[i]) {
            assert(s@.skip(i as int).drop_first() =~= s@.skip(i + 1));
            i = i + 1;
        } else {
            let mut j: usize = i + 1;
            while j < n && !char_is_space(cs[j])
                invariant
                    cs@ == s@,
                    n == cs.len(),
                    i < j <= n,
                    forall|m: int| i <= m < j ==> !is_space(#[trigger] s@[m]),
                decreases n - j,
            {
                j = j + 1;
            }
            let ghost rest = s@.skip(i as int);
            proof {
                assert forall|m: int| 0 <= m < j - i implies !is_space(#[trigger] rest[m]) by {
                    assert(rest[m] == s@[i + m]);
                }
                lemma_word_len_exact(rest, j - i);
                assert(rest.take(j - i) =~= s@.subrange(i as int, j as int));
                assert(rest.skip(j - i) =~= s@.skip(j as int));
            }
            let w = String::from_str(s.substring_char(i, j));
            let ghost before = res@;
            res.push(w);
            proof {
                assert(views(res@) =~= views(before) + seq![w@]);
            }
            i = j;
        }
    }
    assert(s@.skip(n as int) =~= Seq::<char>::empty());
    res
}

/// Whether `s` begins with `prefix`.
pub fn starts_with(s: &str, prefix: &str) -> (b: bool)
    ensures
        b == prefix@.is_prefix_of(s@),
{
    let cs = chars_of(s);
    let ps = chars_of(prefix);
    if ps.len() > cs.len() {
        return false;
    }
    let mut i: usize = 0;
    while i < ps.len()
        invariant
            cs@ == s@,
            ps@ == prefix@,
            ps.len() <= cs.len(),
            i <= ps.len(),
            forall|m: int| 0 <= m < i ==> ps@[m] == cs@[m],
        decreases ps.len() - i,
    {
        if ps[i] != cs[i] {
            return false;
        }
        i = i + 1;
    }
    true
}

/// Number of characters before the first line feed of `s` (all of `s` when
/// there is none).
pub open spec fn line_len(s: Seq<char>) -> nat
    decreases s.len(),
{
    if s.len() == 0 || s[0] == '\n' {
        0
    } else {
        1 + line_len(s.drop_first())
    }
}

/// The first line of `s` as `str::lines` yields it: the text up to the first
/// line feed, without a carriage return that stands just before that line
/// feed; none for the empty text.
pub open spec fn first_line_of(s: Seq<char>) -> Option<Seq<char>> {
    let k = line_len(s) as int;
    if s.len() == 0 {
        None
    } else if k < s.len() && k > 0 && s[k - 1] == '\r' {
        Some(s.take(k - 1))
    } else {
        Some(s.take(k))
    }
}

pub proof fn lemma_line_len_exact(s: Seq<char>, k: int)
    requires
        0 <= k <= s.len(),
        forall|m: int| 0 <= m < k ==> #[trigger] s[m] != '\n',
        k == s.len() || s[k] == '\n',
    ensures
        line_len(s) == k,
    decreases k,
{
    if k > 0 {
        let t = s.drop_first();
        assert forall|m: int| 0 <= m < k - 1 implies #[trigger] t[m] != '\n' by {
            assert(t[m] == s[m + 1]);
        }
        lemma_line_len_exact(t, k - 1);
    }
}

/// The first line of `s`, as `s.lines().next()` gives it.
pub fn first_line(s: &str) -> (res: Option<String>)
    ensures
        res matches Some(l) ==> first_line_of(s@) == Some(l@),
        res is None <==> first_line_of(s@) is None,
{
    let cs = chars_of(s);
    let n = cs.len();
    if n == 0 {
        return None;
    }
    let mut k: usize = 0;
    while k < n && cs[k] != '\n'
        invariant
            cs@ == s@,
            n == cs.len(),
            k <= n,
            forall|m: int| 0 <= m < k ==> #[trigger] s@[m] != '\n',
        decreases n - k,
    {
        k = k + 1;
    }
    proof {
        lemma_line_len_exact(s@, k as int);
    }
    let end = if k < n && k > 0 && cs[k - 1] == '\r' {
        k - 1
    } else {
        k
    };
    assert(s@.subrange(0, end as int) =~= s@.take(end as int));
    Some(String::from_str(s.substring_char(0, end)))
}

/// Whether `c` is an ASCII decimal digit.
pub open spec fn is_digit(c: char) -> bool {
    '0' <= c <= '9'
}

/// Whether every character of `d` is a decimal digit.
pub open spec fn all_digits(d: Seq<char>) -> bool {
    forall|i: int| 0 <= i < d.len() ==> is_digit(#[trigger] d[i])
}

/// The value of the decimal numeral `d`.
pub open spec fn decimal_value(d: Seq<char>) -> nat
    decreases d.len(),
{
    if d.len() == 0 {
        0
    } else {
        decimal_value(d.drop_last()) * 10 + ((d.last() as u32 - '0' as u32) as nat)
    }
}

/// A decimal numeral after an optional sign, as `i64::from_str` reads it: the
/// value, or none where the text is no numeral or the value leaves `i64`.
pub open spec fn parse_i64_of(s: Seq<char>) -> Option<int> {
    let signed = s.len() > 0 && (s[0] == '+' || s[0] == '-');
    let d = if signed {
        s.drop_first()
    } else {
        s
    };
    let v: int = if signed && s[0] == '-' {
        -decimal_value(d)
    } else {
        decimal_value(d) as int
    };
    if d.len() > 0 && all_digits(d) && i64::MIN <= v <= i64::MAX {
        Some(v)
    } else {
        None
    }
}

/// A decimal numeral after an optional `+`, as `u64::from_str` reads it.
pub open spec fn parse_u64_of(s: Seq<char>) -> Option<int> {
    let signed = s.len() > 0 && s[0] == '+';
    let d = if signed {
        s.drop_first()
    } else {
        s
    };
    if d.len() > 0 && all_digits(d) && decimal_value(d) <= u64::MAX {
        Some(decimal_value(d) as int)
    } else {
        None
    }
}

proof fn lemma_decimal_prefix_le(d: Seq<char>, k: int)
    requires
        0 <= k <= d.len(),
        all_digits(d),
    ensures
        decimal_value(d.take(k)) <= decimal_value(d),
    decreases d.len() - k,
{
    if k < d.len() {
        lemma_decimal_prefix_le(d, k + 1);
        assert(d.take(k + 1).drop_last() =~= d.take(k));
        assert(is_digit(d[k]));
    } else {
        assert(d.take(k) =~= d);
    }
}

/// The value of the digits `cs[start..]` when they are all decimal digits,
/// there is at least one, and the value is at most `limit`.
fn read_decimal(cs: &Vec<char>, start: usize, limit: u128) -> (res: Option<u128>)
    requires
        start <= cs.len(),
        limit <= u64::MAX + 1,
    ensures
        ({
            let d = cs@.skip(start as int);
            match res {
                Some(v) => d.len() > 0 && all_digits(d) && v == decimal_value(d) && v <= limit,
                None => !(d.len() > 0 && all_digits(d) && decimal_value(d) <= limit),
            }
        }),
{
    let ghost d = cs@.skip(start as int);
    let n = cs.len();
    if start == n {
        return None;
    }
    let mut acc: u128 = 0;
    let mut i: usize = start;
    assert(d.take(0) =~= Seq::<char>::empty());
    while i < n
        invariant
            d == cs@.skip(start as int),
            n == cs.len(),
            start <= i <= n,
            limit <= u64::MAX + 1,
            all_digits(d.take(i - start)),
            acc == decimal_value(d.take(i - start)),
            acc <= limit,
        decreases n - i,
    {
        let c = cs[i];
        if !('0' <= c && c <= '9') {
            assert(d[i - start] == c);
            return None;
        }
        let digit = (c as u32 - '0' as u32) as u128;
        let ghost k = i - start;
        assert(d.take(k + 1).drop_last() =~= d.take(k));
        assert(d.take(k + 1).last() == c);
        acc = acc * 10 + digit;
        i = i + 1;
        assert forall|m: int| 0 <= m < d.take(i - start).len() implies is_digit(
            #[trigger] d.take(i - start)[m],
        ) by {
            if m < k {
                assert(d.take(i - start)[m] == d.take(k)[m]);
            }
        }
        if acc > limit {
            proof {
                if all_digits(d) {
                    lemma_decimal_prefix_le(d, i - start);
                }
            }
            return None;
        }
    }
    assert(d.take(n - start) =~= d);
    Some(acc)
}

/// Reads `s` as `i64::from_str` does.
pub fn parse_i64(s: &str) -> (res: Option<i64>)
    ensures
        res matches Some(v) ==> parse_i64_of(s@) == Some(v as int),
        res is None <==> parse_i64_of(s@) is None,
{
    let cs = chars_of(s);
    if cs.len() > 0 && cs[0] == '-' {
        assert(cs@.skip(1) =~= s@.drop_first());
        match read_decimal(&cs, 1, 9223372036854775808) {
            Some(m) => {
                if m == 9223372036854775808 {
                    Some(i64::MIN)
                } else {
                    Some(-(m as i64))
                }
            },
            None => None,
        }
    } else if cs.len() > 0 && cs[0] == '+' {
        assert(cs@.skip(1) =~= s@.drop_first());
        match read_decimal(&cs, 1, 9223372036854775807) {
            Some(m) => Some(m as i64),
            None => None,
        }
    } else {
        assert(cs@.skip(0) =~= s@);
        match read_decimal(&cs, 0, 9223372036854775807) {
            Some(m) => Some(m as i64),
            None => None,
        }
    }
}

/// Reads `s` as `u64::from_str` does.
pub fn parse_u64(s: &str) -> (res: Option<u64>)
    ensures
        res matches Some(v) ==> parse_u64_of(s@) == Some(v as int),
        res is None <==> parse_u64_of(s@) is None,
{
    let cs = chars_of(s);
    if cs.len() > 0 && cs[0] == '+' {
        assert(cs@.skip(1) =~= s@.drop_first());
        match read_decimal(&cs, 1, 18446744073709551615) {
            Some(m) => Some(m as u64),
            None => None,
        }
    } else {
        assert(cs@.skip(0) =~= s@);
        match read_decimal(&cs, 0, 18446744073709551615) {
            Some(m) => Some(m as u64),
            None => None,
        }
    }
}

pub proof fn lemma_word_len_run(s: Seq<char>)
    ensures
        forall|m: int| 0 <= m < word_len(s) ==> !is_space(#[trigger] s[m]),
    decreases s.len(),
{
    lemma_word_len_bound(s);
    if s.len() > 0 && !is_space(s[0]) {
        let t = s.drop_first();
        lemma_word_len_run(t);
        assert forall|m: int| 0 <= m < word_len(s) implies !is_space(#[trigger] s[m]) by {
            if m > 0 {
                assert(s[m] == t[m - 1]);
            }
        }
    }
}

/// Every word is nonempty and holds no whitespace.
pub proof fn lemma_words_shape(s: Seq<char>)
    ensures
        forall|i: int|
            0 <= i < words(s).len() ==> (#[trigger] words(s)[i]).len() > 0 && forall|j: int|
                0 <= j < words(s)[i].len() ==> !is_space(#[trigger] words(s)[i][j]),
    decreases s.len(),
{
    if s.len() > 0 {
        if is_space(s[0]) {
            lemma_words_shape(s.drop_first());
            assert(words(s) == words(s.drop_first()));
        } else {
            let n = word_len(s);
            lemma_word_len_bound(s);
            lemma_word_len_run(s);
            lemma_words_shape(s.skip(n as int));
            let rest = words(s.skip(n as int));
            assert(words(s) == seq![s.take(n as int)] + rest);
            assert forall|i: int| 0 <= i < words(s).len() implies (#[trigger] words(s)[i]).len() > 0
                && forall|j: int| 0 <= j < words(s)[i].len() ==> !is_space(#[trigger] words(s)[i][j]) by {
                if i == 0 {
                    assert(words(s)[0] == s.take(n as int));
                    assert forall|j: int| 0 <= j < words(s)[i].len() implies !is_space(#[trigger] words(s)[i][j]) by {
                        assert(words(s)[i][j] == s[j]);
                    }
                } else {
                    assert(words(s)[i] == rest[i - 1]);
                }
            }
        }
    }
}

pub proof fn lemma_line_len_run(s: Seq<char>)
    ensures
        line_len(s) <= s.len(),
        line_len(s) < s.len() ==> s[line_len(s) as int] == '\n',
        forall|m: int| 0 <= m < line_len(s) ==> #[trigger] s[m] != '\n',
    decreases s.len(),
{
    if s.len() > 0 && s[0] != '\n' {
        let t = s.drop_first();
        lemma_line_len_run(t);
        if line_len(t) < t.len() {
            assert(s[line_len(s) as int] == t[line_len(t) as int]);
        }
        assert forall|m: int| 0 <= m < line_len(s) implies #[trigger] s[m] != '\n' by {
            if m > 0 {
                assert(s[m] == t[m - 1]);
            }
        }
    }
}

/// The first line of a text holds no line feed, and the text begins with
/// it.
pub proof fn lemma_first_line_shape(s: Seq<char>)
    ensures
        first_line_of(s) matches Some(l) ==> l.is_prefix_of(s) && forall|j: int|
            0 <= j < l.len() ==> #[trigger] l[j] != '\n',
{
    lemma_line_len_run(s);
    if let Some(l) = first_line_of(s) {
        assert(l =~= s.subrange(0, l.len() as int));
        assert forall|j: int| 0 <= j < l.len() implies #[trigger] l[j] != '\n' by {
            assert(l[j] == s[j]);
        }
    }
}

/// A text without whitespace is a single word, whole; the empty text has
/// no word.
pub proof fn lemma_words_single(w: Seq<char>)
    requires
        forall|i: int| 0 <= i < w.len() ==> !is_space(#[trigger] w[i]),
    ensures
        words(w) == (if w.len() == 0 {
            Seq::<Seq<char>>::empty()
        } else {
            seq![w]
        }),
{
    if w.len() > 0 {
        lemma_word_len_exact(w, w.len() as int);
        assert(w.take(w.len() as int) =~= w);
        assert(w.skip(w.len() as int) =~= Seq::<char>::empty());
        assert(words(w.skip(w.len() as int)) =~= Seq::<Seq<char>>::empty());
    }
}

proof fn lemma_word_len_before_space(a: Seq<char>, t: Seq<char>)
    requires
        t.len() > 0,
        is_space(t[0]),
    ensures
        word_len(a + t) == word_len(a),
    decreases a.len(),
{
    if a.len() == 0 {
        assert(a + t =~= t);
    } else {
        assert((a + t)[0] == a[0]);
        if !is_space(a[0]) {
            assert((a + t).drop_first() =~= a.drop_first() + t);
            lemma_word_len_before_space(a.drop_first(), t);
        }
    }
}

/// Whitespace separates words: the words of `a`, a whitespace character,
/// then `b` are the words of `a` followed by the words of `b`.
pub proof fn lemma_words_join(a: Seq<char>, sp: char, b: Seq<char>)
    requires
        is_space(sp),
    ensures
        words(a + seq![sp] + b) == words(a) + words(b),
    decreases a.len(),
{
    let s = a + seq![sp] + b;
    if a.len() == 0 {
        assert(s[0] == sp);
        assert(s.drop_first() =~= b);
        assert(words(a) =~= Seq::<Seq<char>>::empty());
        assert(words(a) + words(b) =~= words(b));
    } else if is_space(a[0]) {
        assert(s[0] == a[0]);
        assert(s.drop_first() =~= a.drop_first() + seq![sp] + b);
        lemma_words_join(a.drop_first(), sp, b);
    } else {
        assert(s[0] == a[0]);
        let t = seq![sp] + b;
        assert(s =~= a + t);
        lemma_word_len_before_space(a, t);
        let n = word_len(a);
        lemma_word_len_bound(a);
        assert(s.take(n as int) =~= a.take(n as int));
        assert(s.skip(n as int) =~= a.skip(n as int) + seq![sp] + b);
        lemma_words_join(a.skip(n as int), sp, b);
        assert(words(s) == seq![s.take(n as int)] + words(s.skip(n as int)));
        assert(words(a) == seq![a.take(n as int)] + words(a.skip(n as int)));
        assert(words(s) =~= words(a) + words(b));
    }
}

/// What `first_line_of` gives: none only for the empty text; else a prefix
/// of the text without line feed, followed in the text by nothing, by a line
/// feed, or by a carriage return and a line feed; a line that is followed
/// by a line feed does not end in a carriage return.
pub proof fn lemma_first_line_meaning(s: Seq<char>)
    ensures
        first_line_of(s) is None <==> s.len() == 0,
        first_line_of(s) matches Some(l) ==> {
            let r = s.skip(l.len() as int);
            &&& l.len() <= s.len()
            &&& l == s.take(l.len() as int)
            &&& forall|j: int| 0 <= j < l.len() ==> #[trigger] l[j] != '\n'
            &&& (r.len() == 0 || r[0] == '\n' || (r.len() >= 2 && r[0] == '\r' && r[1] == '\n'))
            &&& (r.len() > 0 && r[0] == '\n' && l.len() > 0) ==> l[l.len() - 1] != '\r'
        },
{
    lemma_line_len_run(s);
    let k = line_len(s) as int;
    if s.len() > 0 {
        let l = first_line_of(s)->0;
        assert(l =~= s.take(l.len() as int));
        assert forall|j: int| 0 <= j < l.len() implies #[trigger] l[j] != '\n' by {
            assert(l[j] == s[j]);
        }
        let r = s.skip(l.len() as int);
        if k < s.len() {
            if k > 0 && s[k - 1] == '\r' {
                assert(r[0] == s[k - 1]);
                assert(r[1] == s[k]);
            } else {
                assert(r[0] == s[k]);
                if l.len() > 0 {
                    assert(l[l.len() - 1] == s[k - 1]);
                }
            }
        } else {
            assert(r.len() == 0);
        }
    }
}

/// A single digit is worth its digit value.
pub proof fn lemma_decimal_digit(c: char)
    requires
        is_digit(c),
    ensures
        decimal_value(seq![c]) == (c as u32) - ('0' as u32),
{
    assert(seq![c].drop_last() =~= Seq::<char>::empty());
    assert(decimal_value(Seq::<char>::empty()) == 0);
    assert(seq![c].last() == c);
}

/// Writing numeral `d2` after numeral `d1` multiplies the value of `d1` by
/// ten for each digit of `d2` and adds the value of `d2`.
pub proof fn lemma_decimal_concat(d1: Seq<char>, d2: Seq<char>)
    ensures
        decimal_value(d1 + d2) == decimal_value(d1) * vstd::arithmetic::power::pow(
            10,
            d2.len(),
        ) + decimal_value(d2),
    decreases d2.len(),
{
    reveal(vstd::arithmetic::power::pow);
    if d2.len() == 0 {
        assert(d1 + d2 =~= d1);
        assert(vstd::arithmetic::power::pow(10, 0) == 1);
    } else {
        let d2p = d2.drop_last();
        assert((d1 + d2).drop_last() =~= d1 + d2p);
        assert((d1 + d2).last() == d2.last());
        lemma_decimal_concat(d1, d2p);
        let v1 = decimal_value(d1) as int;
        let p = vstd::arithmetic::power::pow(10, d2p.len());
        assert(vstd::arithmetic::power::pow(10, d2.len()) == 10 * p);
        assert(v1 * p * 10 == v1 * (10 * p)) by (nonlinear_arith);
    }
}

/// A sign before a numeral: `+` leaves the value, `-` negates it, and the
/// result is a number exactly when the signed value fits in `i64`.
pub proof fn lemma_parse_i64_sign(d: Seq<char>)
    requires
        d.len() > 0,
        all_digits(d),
    ensures
        parse_i64_of(d) == (if decimal_value(d) <= i64::MAX {
            Some(decimal_value(d) as int)
        } else {
            None
        }),
        parse_i64_of(seq!['+'] + d) == parse_i64_of(d),
        parse_i64_of(seq!['-'] + d) == (if decimal_value(d) <= i64::MAX + 1 {
            Some(-decimal_value(d))
        } else {
            None
        }),
{
    assert(is_digit(d[0]));
    assert((seq!['+'] + d).drop_first() =~= d);
    assert((seq!['-'] + d).drop_first() =~= d);
}

} // verus!
