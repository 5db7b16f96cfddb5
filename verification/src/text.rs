//! Character-level text operations used by the command, update and settings logic.
//! Text is handled as sequences of `char`s.

use vstd::prelude::*;

verus! {

/// The characters of `s`.
pub fn chars_of(s: &str) -> (r: Vec<char>)
    ensures
        r@ == s@,
{
    let n = s.unicode_len();
    let mut r: Vec<char> = Vec::new();
    let mut i: usize = 0;
    while i < n
        invariant
            n == s@.len(),
            i <= n,
            r@ == s@.take(i as int),
        decreases n - i,
    {
        r.push(s.get_char(i));
        i = i + 1;
        assert(r@ =~= s@.take(i as int));
    }
    assert(s@.take(n as int) =~= s@);
    r
}

/// Collects the characters into a `String` (`FromIterator<char>` for `String`).
/// Trusted claim: the string holds exactly these characters, in order.
#[verifier::external_body]
pub fn string_of(chars: &[char]) -> (r: String)
    ensures
        r@ == chars@,
{
    chars.iter().collect()
}

/// `s` and `t` hold the same characters.
pub fn str_eq(s: &str, t: &str) -> (r: bool)
    ensures
        r == (s@ == t@),
{
    let a = String::from_str(s);
    let b = String::from_str(t);
    a == b
}

/// `chars` begins with `prefix`.
pub open spec fn has_prefix(chars: Seq<char>, prefix: Seq<char>) -> bool {
    prefix.len() <= chars.len() && chars.take(prefix.len() as int) == prefix
}

/// `chars` ends with `suffix`.
pub open spec fn has_suffix(chars: Seq<char>, suffix: Seq<char>) -> bool {
    suffix.len() <= chars.len() && chars.skip(chars.len() - suffix.len()) == suffix
}

/// `part` occurs in `chars` at position `i`.
pub open spec fn occurs_at(chars: Seq<char>, part: Seq<char>, i: int) -> bool {
    0 <= i && i + part.len() <= chars.len() && chars.subrange(i, i + part.len()) == part
}

/// `part` occurs somewhere in `chars`.
pub open spec fn contains_seq(chars: Seq<char>, part: Seq<char>) -> bool {
    exists|i: int| occurs_at(chars, part, i)
}

/// `part` occurs in `chars` at position `i` (executable check).
pub fn matches_at(chars: &[char], part: &[char], i: usize) -> (r: bool)
    ensures
        r == occurs_at(chars@, part@, i as int),
{
    if i > chars.len() || part.len() > chars.len() - i {
        return false;
    }
    let mut k: usize = 0;
    while k < part.len()
        invariant
            i + part@.len() <= chars@.len(),
            i + part.len() <= chars.len(),
            k <= part@.len(),
            forall|m: int| 0 <= m < k ==> chars@[i + m] == part@[m],
        decreases part.len() - k,
    {
        if chars[i + k] != part[k] {
            assert(chars@.subrange(i as int, i + part@.len())[k as int] != part@[k as int]);
            return false;
        }
        k = k + 1;
    }
    assert(chars@.subrange(i as int, i + part@.len()) =~= part@);
    true
}

/// `chars` begins with `prefix` (executable check).
pub fn starts_with(chars: &[char], prefix: &[char]) -> (r: bool)
    ensures
        r == has_prefix(chars@, prefix@),
{
    let r = matches_at(chars, prefix, 0);
    proof {
        if prefix@.len() <= chars@.len() {
            assert(chars@.subrange(0, prefix@.len() as int) =~= chars@.take(prefix@.len() as int));
        }
    }
    r
}

/// `chars` ends with `suffix` (executable check).
pub fn ends_with(chars: &[char], suffix: &[char]) -> (r: bool)
    ensures
        r == has_suffix(chars@, suffix@),
{
    if suffix.len() > chars.len() {
        return false;
    }
    let r = matches_at(chars, suffix, chars.len() - suffix.len());
    proof {
        assert(chars@.subrange(chars@.len() - suffix@.len(), chars@.len() as int) =~= chars@.skip(
            chars@.len() - suffix@.len(),
        ));
    }
    r
}

/// `part` occurs in `chars` (executable check).
pub fn contains(chars: &[char], part: &[char]) -> (r: bool)
    ensures
        r == contains_seq(chars@, part@),
{
    if part.len() > chars.len() {
        return false;
    }
    let last = chars.len() - part.len();
    let mut i: usize = 0;
    loop
        invariant
            part@.len() <= chars@.len(),
            last == chars@.len() - part@.len(),
            i <= last,
            forall|m: int| 0 <= m < i ==> !occurs_at(chars@, part@, m),
        ensures
            last == chars@.len() - part@.len(),
            forall|m: int| 0 <= m <= last ==> !occurs_at(chars@, part@, m),
        decreases last - i,
    {
        if matches_at(chars, part, i) {
            return true;
        }
        if i == last {
            break;
        }
        i = i + 1;
    }
    assert forall|m: int| !occurs_at(chars@, part@, m) by {
        if 0 <= m && m + part@.len() <= chars@.len() {
            assert(m <= last);
        }
    }
    false
}

/// The ASCII lower-case form of `c` (other characters are unchanged).
pub open spec fn lower_char(c: char) -> char {
    if 'A' <= c <= 'Z' {
        ((c as u32) + 32) as char
    } else {
        c
    }
}

/// `str::to_ascii_lowercase`: ASCII letters lowered, everything else kept.
pub open spec fn ascii_lower(s: Seq<char>) -> Seq<char> {
    s.map_values(|c: char| lower_char(c))
}

pub fn to_ascii_lower(chars: &[char]) -> (r: Vec<char>)
    ensures
        r@ == ascii_lower(chars@),
{
    let mut r: Vec<char> = Vec::new();
    let mut i: usize = 0;
    while i < chars.len()
        invariant
            i <= chars@.len(),
            r@ == ascii_lower(chars@.take(i as int)),
        decreases chars.len() - i,
    {
        let c = chars[i];
        let l = if 'A' <= c && c <= 'Z' {
            let code = (c as u32) + 32;
            proof {
                assert(code <= 0x7a);
            }
            char_from_ascii(code)
        } else {
            c
        };
        r.push(l);
        proof {
            assert(chars@.take(i + 1) =~= chars@.take(i as int).push(c));
        }
        i = i + 1;
        assert(r@ =~= ascii_lower(chars@.take(i as int)));
    }
    assert(chars@.take(chars@.len() as int) =~= chars@);
    r
}

/// The character with the ASCII code `code`.
fn char_from_ascii(code: u32) -> (c: char)
    requires
        code < 0x80,
    ensures
        c == code as char,
{
    let b = code as u8;
    b as char
}

/// Unicode `White_Space`, as tested by `char::is_whitespace`.
pub open spec fn is_space(c: char) -> bool {
    let n = c as u32;
    ||| 0x09 <= n <= 0x0d
    ||| n == 0x20
    ||| n == 0x85
    ||| n == 0xa0
    ||| n == 0x1680
    ||| 0x2000 <= n <= 0x200a
    ||| n == 0x2028
    ||| n == 0x2029
    ||| n == 0x202f
    ||| n == 0x205f
    ||| n == 0x3000
}

pub fn is_space_exec(c: char) -> (r: bool)
    ensures
        r == is_space(c),
{
    let n = c as u32;
    (0x09 <= n && n <= 0x0d) || n == 0x20 || n == 0x85 || n == 0xa0 || n == 0x1680 || (0x2000 <= n
        && n <= 0x200a) || n == 0x2028 || n == 0x2029 || n == 0x202f || n == 0x205f || n == 0x3000
}

/// `s` without its leading white space.
pub open spec fn trim_start(s: Seq<char>) -> Seq<char>
    decreases s.len(),
{
    if s.len() > 0 && is_space(s[0]) {
        trim_start(s.drop_first())
    } else {
        s
    }
}

/// `s` without its trailing white space.
pub open spec fn trim_end(s: Seq<char>) -> Seq<char>
    decreases s.len(),
{
    if s.len() > 0 && is_space(s.last()) {
        trim_end(s.drop_last())
    } else {
        s
    }
}

/// `str::trim`: `s` without leading and trailing white space.
pub open spec fn trim(s: Seq<char>) -> Seq<char> {
    trim_end(trim_start(s))
}

proof fn lemma_trim_start_skip(s: Seq<char>, i: int)
    requires
        0 <= i <= s.len(),
        forall|k: int| 0 <= k < i ==> is_space(#[trigger] s[k]),
    ensures
        trim_start(s) == trim_start(s.skip(i)),
    decreases i,
{
    if i > 0 {
        assert(s.drop_first().skip(i - 1) =~= s.skip(i));
        lemma_trim_start_skip(s.drop_first(), i - 1);
    } else {
        assert(s.skip(0) =~= s);
    }
}

proof fn lemma_trim_end_take(s: Seq<char>, j: int)
    requires
        0 <= j <= s.len(),
        forall|k: int| j <= k < s.len() ==> is_space(#[trigger] s[k]),
    ensures
        trim_end(s) == trim_end(s.take(j)),
    decreases s.len() - j,
{
    if j < s.len() {
        assert(s.drop_last().take(j) =~= s.take(j));
        lemma_trim_end_take(s.drop_last(), j);
    } else {
        assert(s.take(j) =~= s);
    }
}

/// `str::trim` on characters.
pub fn trim_chars(chars: &[char]) -> (r: Vec<char>)
    ensures
        r@ == trim(chars@),
{
    let n = chars.len();
    let mut i: usize = 0;
    while i < n && is_space_exec(chars[i])
        invariant
            n == chars@.len(),
            i <= n,
            forall|k: int| 0 <= k < i ==> is_space(#[trigger] chars@[k]),
        decreases n - i,
    {
        i = i + 1;
    }
    let mut j: usize = n;
    while j > i && is_space_exec(chars[j - 1])
        invariant
            n == chars@.len(),
            i <= j <= n,
            forall|k: int| j <= k < n ==> is_space(#[trigger] chars@[k]),
        decreases j - i,
    {
        j = j - 1;
    }
    let mut r: Vec<char> = Vec::new();
    let mut k: usize = i;
    while k < j
        invariant
            i <= k <= j <= n,
            n == chars@.len(),
            r@ == chars@.subrange(i as int, k as int),
        decreases j - k,
    {
        r.push(chars[k]);
        k = k + 1;
        assert(r@ =~= chars@.subrange(i as int, k as int));
    }
    proof {
        lemma_trim_start_skip(chars@, i as int);
        let rest = chars@.skip(i as int);
        if i < n {
            assert(!is_space(rest[0]));
            assert(trim_start(rest) == rest);
        } else {
            assert(rest.len() == 0);
        }
        assert forall|k: int| j - i <= k < rest.len() implies is_space(#[trigger] rest[k]) by {
            assert(rest[k] == chars@[i + k]);
        }
        lemma_trim_end_take(rest, j - i);
        let kept = rest.take(j - i);
        assert(kept =~= chars@.subrange(i as int, j as int));
        if j > i {
            assert(!is_space(kept.last()));
        }
        assert(trim_end(kept) == kept);
    }
    r
}

/// The position of the first `c` in `chars` at or after `from`.
pub open spec fn find_from(chars: Seq<char>, c: char, from: int) -> Option<int>
    decreases chars.len() - from,
{
    if from < 0 || from >= chars.len() {
        None
    } else if chars[from] == c {
        Some(from)
    } else {
        find_from(chars, c, from + 1)
    }
}

pub fn find_char(chars: &[char], c: char, from: usize) -> (r: Option<usize>)
    ensures
        r matches Some(i) ==> find_from(chars@, c, from as int) == Some(i as int),
        r is None ==> find_from(chars@, c, from as int) is None,
    decreases chars.len() - from,
{
    if from >= chars.len() {
        None
    } else if chars[from] == c {
        Some(from)
    } else {
        find_char(chars, c, from + 1)
    }
}

pub proof fn lemma_find_from_bounds(chars: Seq<char>, c: char, from: int)
    ensures
        find_from(chars, c, from) matches Some(i) ==> from <= i < chars.len() && chars[i] == c,
    decreases chars.len() - from,
{
    if 0 <= from < chars.len() && chars[from] != c {
        lemma_find_from_bounds(chars, c, from + 1);
    }
}

/// Every occurrence of `from` in `s`, searched left to right without overlaps,
/// replaced by `to` (`str::replace`, for a non-empty `from`).
pub open spec fn replace_all(s: Seq<char>, from: Seq<char>, to: Seq<char>) -> Seq<char>
    decreases s.len(),
{
    if from.len() == 0 || s.len() == 0 {
        s
    } else if has_prefix(s, from) {
        to + replace_all(s.skip(from.len() as int), from, to)
    } else {
        seq![s[0]] + replace_all(s.drop_first(), from, to)
    }
}

pub fn replace_chars(s: &[char], from: &[char], to: &[char]) -> (r: Vec<char>)
    requires
        from@.len() > 0,
    ensures
        r@ == replace_all(s@, from@, to@),
{
    let mut r: Vec<char> = Vec::new();
    let mut i: usize = 0;
    assert(s@.skip(0) =~= s@);
    assert(r@ + replace_all(s@, from@, to@) =~= replace_all(s@, from@, to@));
    while i < s.len()
        invariant
            i <= s@.len(),
            from@.len() > 0,
            r@ + replace_all(s@.skip(i as int), from@, to@) == replace_all(s@, from@, to@),
        decreases s.len() - i,
    {
        let rest = Ghost(s@.skip(i as int));
        if matches_at(s, from, i) {
            proof {
                assert(rest@.take(from@.len() as int) =~= s@.subrange(i as int, i + from@.len()));
                assert(rest@.skip(from@.len() as int) =~= s@.skip(i + from@.len()));
            }
            r.extend_from_slice(to);
            i = i + from.len();
        } else {
            proof {
                if from@.len() <= rest@.len() {
                    assert(rest@.take(from@.len() as int) =~= s@.subrange(i as int, i + from@.len()));
                }
                assert(rest@.drop_first() =~= s@.skip(i + 1));
                assert(rest@[0] == s@[i as int]);
            }
            r.push(s[i]);
            i = i + 1;
        }
        assert(r@ + replace_all(s@.skip(i as int), from@, to@) =~= replace_all(s@, from@, to@));
    }
    proof {
        assert(s@.skip(i as int).len() == 0);
        assert(r@ + replace_all(s@.skip(i as int), from@, to@) =~= r@);
    }
    r
}

/// The parts joined with `sep` between neighbours.
pub open spec fn join(parts: Seq<Seq<char>>, sep: Seq<char>) -> Seq<char>
    decreases parts.len(),
{
    if parts.len() == 0 {
        Seq::empty()
    } else if parts.len() == 1 {
        parts[0]
    } else {
        join(parts.drop_last(), sep) + sep + parts.last()
    }
}

/// The views of a list of strings.
pub open spec fn views(v: Seq<String>) -> Seq<Seq<char>> {
    v.map_values(|s: String| s@)
}

pub fn join_strings(parts: &Vec<String>, sep: &str) -> (r: String)
    ensures
        r@ == join(views(parts@), sep@),
{
    let mut r = String::new();
    let mut i: usize = 0;
    while i < parts.len()
        invariant
            i <= parts@.len(),
            r@ == join(views(parts@.take(i as int)), sep@),
        decreases parts.len() - i,
    {
        if i > 0 {
            r.append(sep);
        }
        r.append(parts[i].as_str());
        proof {
            let prev = views(parts@.take(i as int));
            let next = views(parts@.take(i + 1));
            assert(next.drop_last() =~= prev);
            assert(next.last() == parts@[i as int]@);
        }
        i = i + 1;
    }
    assert(parts@.take(parts@.len() as int) =~= parts@);
    r
}

/// The decimal digits of `n`, without sign or leading zeros.
pub open spec fn decimal_nat(n: nat) -> Seq<char>
    decreases n,
{
    if n < 10 {
        seq![('0' as int + n) as char]
    } else {
        decimal_nat(n / 10).push(('0' as int + n % 10) as char)
    }
}

/// `n` in decimal, as `{}` formats an integer: a `-` before negative numbers.
pub open spec fn decimal(n: int) -> Seq<char> {
    if n < 0 {
        seq!['-'] + decimal_nat((-n) as nat)
    } else {
        decimal_nat(n as nat)
    }
}

fn push_decimal(out: &mut Vec<char>, m: u64)
    ensures
        final(out)@ == old(out)@ + decimal_nat(m as nat),
    decreases m,
{
    if m >= 10 {
        push_decimal(out, m / 10);
    }
    let d: u8 = (m % 10) as u8;
    let c: char = (48u8 + d) as char;
    assert(c == ('0' as int + (m % 10)) as char);
    out.push(c);
    if m >= 10 {
        assert(out@ =~= old(out)@ + decimal_nat((m / 10) as nat).push(c));
    } else {
        assert(out@ =~= old(out)@ + seq![c]);
    }
}

/// Formats `n` in decimal.
pub fn decimal_string(n: i64) -> (r: String)
    ensures
        r@ == decimal(n as int),
{
    let mut out: Vec<char> = Vec::new();
    let m: u64 = if n < 0 {
        out.push('-');
        (0i128 - n as i128) as u64
    } else {
        n as u64
    };
    push_decimal(&mut out, m);
    if n < 0 {
        assert(out@ =~= seq!['-'] + decimal_nat((-n) as nat));
    } else {
        assert(out@ =~= decimal_nat(n as nat));
    }
    string_of(&out)
}

} // verus!
