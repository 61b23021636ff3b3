use vstd::prelude::*;

verus! {

/// The decimal digit character of `d` (below ten).
pub open spec fn digit_char(d: nat) -> char {
    if d == 0 { '0' }
    else if d == 1 { '1' }
    else if d == 2 { '2' }
    else if d == 3 { '3' }
    else if d == 4 { '4' }
    else if d == 5 { '5' }
    else if d == 6 { '6' }
    else if d == 7 { '7' }
    else if d == 8 { '8' }
    else { '9' }
}

/// The decimal representation of `n`, as `Display` writes an unsigned integer.
pub open spec fn decimal(n: nat) -> Seq<char>
    decreases n,
{
    if n < 10 {
        seq![digit_char(n)]
    } else {
        decimal(n / 10).push(digit_char(n % 10))
    }
}

/// The message of a syntax error at a source position.
pub open spec fn syntax_error_text(line: nat, column: nat, msg: Seq<char>) -> Seq<char> {
    "Syntax error at line "@ + decimal(line) + ", column "@ + decimal(column) + ": "@ + msg
}

/// Whether `c` has the Unicode White_Space property.
pub open spec fn is_white_space(c: char) -> bool {
    let u = c as u32;
    (0x09 <= u <= 0x0D) || u == 0x20 || u == 0x85 || u == 0xA0 || u == 0x1680 || (0x2000 <= u
        <= 0x200A) || u == 0x2028 || u == 0x2029 || u == 0x202F || u == 0x205F || u == 0x3000
}

pub open spec fn is_ascii_digit(c: char) -> bool {
    '0' <= c <= '9'
}

pub open spec fn is_ascii_letter(c: char) -> bool {
    ('a' <= c <= 'z') || ('A' <= c <= 'Z')
}

/// Whether `c` has the Unicode Alphabetic property.
pub uninterp spec fn unicode_alphabetic(c: char) -> bool;

/// Whether `c` is Unicode alphabetic or numeric.
pub uninterp spec fn unicode_alphanumeric(c: char) -> bool;

/// Whether `c` has the Unicode Uppercase property.
pub uninterp spec fn unicode_uppercase(c: char) -> bool;

/// The Unicode upper-case mapping of a string.
pub uninterp spec fn unicode_to_upper(s: Seq<char>) -> Seq<char>;

/// The characters of a string slice (`str::chars`); a string slice holds at
/// most `isize::MAX` bytes, so there are at most that many.
#[verifier::external_body]
pub(crate) fn str_chars(s: &str) -> (r: Vec<char>)
    ensures
        r@ == s@,
        r@.len() <= isize::MAX,
{
    s.chars().collect()
}

/// A string made of the given characters (`String::from_iter`).
#[verifier::external_body]
pub(crate) fn string_from_chars(cs: &[char]) -> (r: String)
    ensures
        r@ == cs@,
{
    cs.iter().collect()
}

/// Whether `c` has the Unicode White_Space property, as `char::is_whitespace`
/// answers.
pub(crate) fn char_is_whitespace(c: char) -> (r: bool)
    ensures
        r == is_white_space(c),
{
    let u = c as u32;
    (0x09 <= u && u <= 0x0D) || u == 0x20 || u == 0x85 || u == 0xA0 || u == 0x1680 || (0x2000 <= u
        && u <= 0x200A) || u == 0x2028 || u == 0x2029 || u == 0x202F || u == 0x205F || u == 0x3000
}

/// `char::is_alphabetic`: the Unicode Alphabetic property, which holds of the
/// ASCII letters and of no other ASCII character.
#[verifier::external_body]
pub(crate) fn char_is_alphabetic(c: char) -> (r: bool)
    ensures
        r == unicode_alphabetic(c),
        (c as u32) < 128 ==> (r <==> is_ascii_letter(c)),
{
    c.is_alphabetic()
}

/// `char::is_alphanumeric`: alphabetic or numeric; among ASCII characters
/// exactly the letters and digits.
#[verifier::external_body]
pub(crate) fn char_is_alphanumeric(c: char) -> (r: bool)
    ensures
        r == unicode_alphanumeric(c),
        (c as u32) < 128 ==> (r <==> (is_ascii_letter(c) || is_ascii_digit(c))),
{
    c.is_alphanumeric()
}

/// `char::is_uppercase`: the Unicode Uppercase property; among ASCII
/// characters exactly `A` to `Z`.
#[verifier::external_body]
pub(crate) fn char_is_uppercase(c: char) -> (r: bool)
    ensures
        r == unicode_uppercase(c),
        (c as u32) < 128 ==> (r <==> ('A' <= c <= 'Z')),
{
    c.is_uppercase()
}

/// `str::to_uppercase`, which leaves every character that is not a lower-case
/// ASCII letter of an ASCII string unchanged and maps `a` to `z` onto `A` to
/// `Z`.
#[verifier::external_body]
pub(crate) fn str_to_uppercase(s: &[char]) -> (r: Vec<char>)
    ensures
        r@ == unicode_to_upper(s@),
        (forall|i: int| 0 <= i < s@.len() ==> (s@[i] as u32) < 128) ==> r@ == s@.map_values(
            |c: char| ascii_upper(c),
        ),
{
    let st: String = s.iter().collect();
    st.to_uppercase().chars().collect()
}

/// The Unicode lower-case mapping of a string.
pub uninterp spec fn unicode_to_lower(s: Seq<char>) -> Seq<char>;

/// `str::to_lowercase`, which leaves every character that is not an
/// upper-case ASCII letter of an ASCII string unchanged and maps `A` to `Z`
/// onto `a` to `z`.
#[verifier::external_body]
pub(crate) fn str_to_lowercase(s: &[char]) -> (r: Vec<char>)
    ensures
        r@ == unicode_to_lower(s@),
        (forall|i: int| 0 <= i < s@.len() ==> (s@[i] as u32) < 128) ==> r@ == s@.map_values(
            |c: char| ascii_lower(c),
        ),
{
    let st: String = s.iter().collect();
    st.to_lowercase().chars().collect()
}

/// The characters of a string.
pub fn string_chars(s: &String) -> (r: Vec<char>)
    ensures
        r@ == s@,
{
    str_chars(s.as_str())
}

/// The ASCII upper-case of a character.
pub open spec fn ascii_upper(c: char) -> char {
    if 'a' <= c <= 'z' { ((c as u32) - 32) as char } else { c }
}

/// The ASCII lower-case of a character.
pub open spec fn ascii_lower(c: char) -> char {
    if 'A' <= c <= 'Z' { ((c as u32) + 32) as char } else { c }
}

/// The message of a syntax error at a source position.
pub(crate) fn syntax_error(line: usize, column: usize, msg: &[char]) -> (r: String)
    ensures
        r@ == syntax_error_text(line as nat, column as nat, msg@),
{
    let mut out: Vec<char> = Vec::new();
    push_str(&mut out, "Syntax error at line ");
    let l = decimal_chars(line);
    push_chars(&mut out, &l);
    push_str(&mut out, ", column ");
    let c = decimal_chars(column);
    push_chars(&mut out, &c);
    push_str(&mut out, ": ");
    push_chars(&mut out, msg);
    proof {
        assert(out@ =~= syntax_error_text(line as nat, column as nat, msg@));
    }
    string_from_chars(&out)
}

/// Whether a character sequence equals a string literal.
pub fn chars_eq(a: &[char], b: &str) -> (r: bool)
    ensures
        r == (a@ == b@),
{
    let bc = str_chars(b);
    if a.len() != bc.len() {
        return false;
    }
    let mut i: usize = 0;
    while i < a.len()
        invariant
            i <= a@.len(),
            a@.len() == bc@.len(),
            bc@ == b@,
            forall|k: int| 0 <= k < i ==> a@[k] == bc@[k],
        decreases a@.len() - i,
    {
        if a[i] != bc[i] {
            return false;
        }
        i = i + 1;
    }
    assert(a@ =~= b@);
    true
}

/// The value of a string of decimal digits.
pub open spec fn digits_value(t: Seq<char>) -> nat
    decreases t.len(),
{
    if t.len() == 0 {
        0
    } else {
        digits_value(t.drop_last()) * 10 + ((t.last() as u32) - ('0' as u32)) as nat
    }
}

/// A prefix of a digit string never has a larger value than the string.
pub proof fn lemma_digits_value_prefix(t: Seq<char>, k: int)
    requires
        0 <= k <= t.len(),
        forall|m: int| 0 <= m < t.len() ==> is_ascii_digit(#[trigger] t[m]),
    ensures
        digits_value(t.take(k)) <= digits_value(t),
    decreases t.len() - k,
{
    if k < t.len() {
        let u = t.take(k + 1);
        assert(u.drop_last() =~= t.take(k));
        lemma_digits_value_prefix(t, k + 1);
    } else {
        assert(t.take(k) =~= t);
    }
}


/// Whether two string slices hold the same characters.
pub fn str_eq(a: &str, b: &str) -> (r: bool)
    ensures
        r == (a@ == b@),
{
    let ac = str_chars(a);
    chars_eq(&ac, b)
}

/// The characters of `a`, then those of `b`.
pub fn concat_chars(a: &[char], b: &[char]) -> (r: Vec<char>)
    ensures
        r@ == a@ + b@,
{
    let mut out: Vec<char> = Vec::new();
    let mut i: usize = 0;
    while i < a.len()
        invariant
            i <= a@.len(),
            out@ == a@.take(i as int),
        decreases a@.len() - i,
    {
        out.push(a[i]);
        i = i + 1;
        proof {
            assert(out@ =~= a@.take(i as int));
        }
    }
    let mut j: usize = 0;
    while j < b.len()
        invariant
            j <= b@.len(),
            i == a@.len(),
            out@ == a@ + b@.take(j as int),
        decreases b@.len() - j,
    {
        out.push(b[j]);
        j = j + 1;
        proof {
            assert(out@ =~= a@ + b@.take(j as int));
        }
    }
    proof {
        assert(a@.take(a@.len() as int) =~= a@);
        assert(b@.take(b@.len() as int) =~= b@);
    }
    out
}

/// The decimal digit character of `d`.
pub fn digit(d: usize) -> (c: char)
    requires
        d < 10,
    ensures
        c == digit_char(d as nat),
{
    if d == 0 { '0' }
    else if d == 1 { '1' }
    else if d == 2 { '2' }
    else if d == 3 { '3' }
    else if d == 4 { '4' }
    else if d == 5 { '5' }
    else if d == 6 { '6' }
    else if d == 7 { '7' }
    else if d == 8 { '8' }
    else { '9' }
}

/// The decimal representation of `n`.
pub fn decimal_chars(n: usize) -> (r: Vec<char>)
    ensures
        r@ == decimal(n as nat),
    decreases n,
{
    if n < 10 {
        let mut v: Vec<char> = Vec::new();
        v.push(digit(n));
        proof {
            assert(v@ =~= seq![digit_char(n as nat)]);
        }
        v
    } else {
        let mut v = decimal_chars(n / 10);
        v.push(digit(n % 10));
        v
    }
}

/// The characters of `out`, then those of `s`.
pub fn push_str(out: &mut Vec<char>, s: &str)
    ensures
        final(out)@ == old(out)@ + s@,
{
    let cs = str_chars(s);
    push_chars(out, &cs);
}

/// The characters of `out`, then `cs`.
pub fn push_chars(out: &mut Vec<char>, cs: &[char])
    ensures
        final(out)@ == old(out)@ + cs@,
{
    let mut i: usize = 0;
    while i < cs.len()
        invariant
            i <= cs@.len(),
            out@ == old(out)@ + cs@.take(i as int),
        decreases cs@.len() - i,
    {
        out.push(cs[i]);
        i = i + 1;
        proof {
            assert(out@ =~= old(out)@ + cs@.take(i as int));
        }
    }
    proof {
        assert(cs@.take(cs@.len() as int) =~= cs@);
    }
}


/// The index of the first `c` in `s`.
pub open spec fn first_index(s: Seq<char>, c: char) -> Option<int>
    decreases s.len(),
{
    if s.len() == 0 {
        None
    } else if s[0] == c {
        Some(0)
    } else {
        match first_index(s.drop_first(), c) {
            Some(i) => Some(i + 1),
            None => None,
        }
    }
}

/// `first_index` finds the first occurrence, and nothing when there is none.
pub proof fn lemma_first_index(s: Seq<char>, c: char)
    ensures
        match first_index(s, c) {
            Some(i) => 0 <= i < s.len() && s[i] == c && forall|j: int| 0 <= j < i ==> s[j] != c,
            None => forall|j: int| 0 <= j < s.len() ==> s[j] != c,
        },
    decreases s.len(),
{
    if s.len() > 0 && s[0] != c {
        lemma_first_index(s.drop_first(), c);
        assert forall|j: int| 1 <= j < s.len() implies s[j] == s.drop_first()[j - 1] by {}
    }
}

/// The pieces of `s` between the separators `sep` (`str::split` with a
/// character): one more piece than there are separators, empty pieces
/// included.
pub open spec fn split_on(s: Seq<char>, sep: char) -> Seq<Seq<char>>
    decreases s.len(),
{
    match first_index(s, sep) {
        Some(i) => {
            proof {
                lemma_first_index(s, sep);
            }
            seq![s.take(i)] + split_on(s.skip(i + 1), sep)
        },
        None => seq![s],
    }
}

/// The text before and after the first `sep` (`str::split_once`).
pub open spec fn split_once(s: Seq<char>, sep: char) -> Option<(Seq<char>, Seq<char>)> {
    match first_index(s, sep) {
        Some(i) => Some((s.take(i), s.skip(i + 1))),
        None => None,
    }
}

/// `s` without its leading white space.
pub open spec fn trim_start(s: Seq<char>) -> Seq<char>
    decreases s.len(),
{
    if s.len() > 0 && is_white_space(s[0]) {
        trim_start(s.drop_first())
    } else {
        s
    }
}

/// `s` without its trailing white space.
pub open spec fn trim_end(s: Seq<char>) -> Seq<char>
    decreases s.len(),
{
    if s.len() > 0 && is_white_space(s.last()) {
        trim_end(s.drop_last())
    } else {
        s
    }
}

/// `s` without leading and trailing white space (`str::trim`).
pub open spec fn trim(s: Seq<char>) -> Seq<char> {
    trim_end(trim_start(s))
}

/// The order of strings: lexicographic by code point, which is the byte
/// order of their UTF-8 encodings and so the order of `String`.
pub open spec fn str_lt(a: Seq<char>, b: Seq<char>) -> bool
    decreases a.len(),
{
    if b.len() == 0 {
        false
    } else if a.len() == 0 {
        true
    } else if a[0] != b[0] {
        (a[0] as u32) < (b[0] as u32)
    } else {
        str_lt(a.drop_first(), b.drop_first())
    }
}

/// The index of the first `c` in `cs`.
pub fn find_char(cs: &[char], c: char) -> (r: Option<usize>)
    ensures
        match r {
            Some(i) => first_index(cs@, c) == Some(i as int),
            None => first_index(cs@, c) is None,
        },
{
    proof {
        lemma_first_index(cs@, c);
    }
    let mut i: usize = 0;
    while i < cs.len()
        invariant
            i <= cs@.len(),
            forall|j: int| 0 <= j < i ==> cs@[j] != c,
            match first_index(cs@, c) {
                Some(k) => 0 <= k < cs@.len() && cs@[k] == c && forall|j: int| 0 <= j < k ==> cs@[j] != c,
                None => forall|j: int| 0 <= j < cs@.len() ==> cs@[j] != c,
            },
        decreases cs@.len() - i,
    {
        if cs[i] == c {
            return Some(i);
        }
        i = i + 1;
    }
    None
}

/// The characters `cs[start..end]`.
pub fn chars_between(cs: &[char], start: usize, end: usize) -> (r: Vec<char>)
    requires
        start <= end <= cs@.len(),
    ensures
        r@ == cs@.subrange(start as int, end as int),
{
    let mut out: Vec<char> = Vec::new();
    let mut k: usize = start;
    while k < end
        invariant
            start <= k <= end <= cs@.len(),
            out@ == cs@.subrange(start as int, k as int),
        decreases end - k,
    {
        out.push(cs[k]);
        k = k + 1;
        proof {
            assert(out@ =~= cs@.subrange(start as int, k as int));
        }
    }
    out
}

/// The pieces of `cs` between the separators `sep`.
pub fn split_chars(cs: &[char], sep: char) -> (r: Vec<Vec<char>>)
    ensures
        r@.map_values(|p: Vec<char>| p@) == split_on(cs@, sep),
    decreases cs@.len(),
{
    match find_char(cs, sep) {
        Some(i) => {
            proof {
                lemma_first_index(cs@, sep);
            }
            let n = cs.len();
            assert(i < n);
            let head = chars_between(cs, 0, i);
            let tail = chars_between(cs, i + 1, n);
            let mut rest = split_chars(&tail, sep);
            let mut out: Vec<Vec<char>> = Vec::new();
            out.push(head);
            let ghost o1 = out@;
            let ghost r1 = rest@;
            out.append(&mut rest);
            proof {
                assert(tail@ =~= cs@.skip(i + 1));
                assert(cs@.subrange(0, i as int) =~= cs@.take(i as int));
                assert(out@ == o1 + r1);
                assert(out@.map_values(|p: Vec<char>| p@) =~= seq![cs@.take(i as int)] + r1.map_values(
                    |p: Vec<char>| p@,
                ));
            }
            out
        },
        None => {
            let mut out: Vec<Vec<char>> = Vec::new();
            let whole = chars_between(cs, 0, cs.len());
            out.push(whole);
            proof {
                assert(cs@.subrange(0, cs@.len() as int) =~= cs@);
                assert(out@.map_values(|p: Vec<char>| p@) =~= seq![cs@]);
            }
            out
        },
    }
}

/// `cs` without leading and trailing white space.
pub fn trim_chars(cs: &[char]) -> (r: Vec<char>)
    ensures
        r@ == trim(cs@),
{
    let n = cs.len();
    let mut i: usize = 0;
    assert(cs@.skip(0) =~= cs@);
    while i < n && char_is_whitespace(cs[i])
        invariant
            i <= n == cs@.len(),
            trim_start(cs@) == trim_start(cs@.skip(i as int)),
        decreases n - i,
    {
        proof {
            assert(cs@.skip(i as int).drop_first() =~= cs@.skip(i + 1));
        }
        i = i + 1;
    }
    proof {
        assert(trim_start(cs@.skip(i as int)) == cs@.skip(i as int));
    }
    let mut j: usize = n;
    while j > i && char_is_whitespace(cs[j - 1])
        invariant
            i <= j <= n == cs@.len(),
            trim(cs@) == trim_end(cs@.subrange(i as int, j as int)),
        decreases j,
    {
        proof {
            assert(cs@.subrange(i as int, j as int).drop_last() =~= cs@.subrange(i as int, j - 1));
        }
        j = j - 1;
    }
    proof {
        assert(cs@.skip(i as int) =~= cs@.subrange(i as int, n as int));
    }
    chars_between(cs, i, j)
}

/// Whether `a` sorts before `b`.
pub fn chars_lt(a: &[char], b: &[char]) -> (r: bool)
    ensures
        r == str_lt(a@, b@),
{
    let mut i: usize = 0;
    assert(a@.skip(0) =~= a@);
    assert(b@.skip(0) =~= b@);
    while i < a.len() && i < b.len() && a[i] == b[i]
        invariant
            i <= a@.len(),
            i <= b@.len(),
            str_lt(a@, b@) == str_lt(a@.skip(i as int), b@.skip(i as int)),
        decreases a@.len() - i,
    {
        proof {
            assert(a@.skip(i as int).drop_first() =~= a@.skip(i + 1));
            assert(b@.skip(i as int).drop_first() =~= b@.skip(i + 1));
        }
        i = i + 1;
    }
    if i == b.len() {
        false
    } else if i == a.len() {
        true
    } else {
        (a[i] as u32) < (b[i] as u32)
    }
}


/// No string sorts before itself.
pub proof fn lemma_str_lt_irreflexive(a: Seq<char>)
    ensures
        !str_lt(a, a),
    decreases a.len(),
{
    if a.len() > 0 {
        lemma_str_lt_irreflexive(a.drop_first());
    }
}

/// The order of strings is transitive.
pub proof fn lemma_str_lt_transitive(a: Seq<char>, b: Seq<char>, c: Seq<char>)
    requires
        str_lt(a, b),
        str_lt(b, c),
    ensures
        str_lt(a, c),
    decreases a.len(),
{
    if a.len() > 0 && b.len() > 0 && c.len() > 0 && a[0] == b[0] && b[0] == c[0] {
        lemma_str_lt_transitive(a.drop_first(), b.drop_first(), c.drop_first());
    }
}

/// Of two different strings, one sorts before the other.
pub proof fn lemma_str_lt_total(a: Seq<char>, b: Seq<char>)
    requires
        a != b,
    ensures
        str_lt(a, b) || str_lt(b, a),
    decreases a.len(),
{
    if a.len() > 0 && b.len() > 0 && a[0] == b[0] {
        if a.drop_first() == b.drop_first() {
            assert(a =~= seq![a[0]] + a.drop_first());
            assert(b =~= seq![b[0]] + b.drop_first());
        }
        lemma_str_lt_total(a.drop_first(), b.drop_first());
    } else if a.len() == 0 && b.len() == 0 {
        assert(a =~= b);
    } else if a.len() > 0 && b.len() > 0 {
        let x = a[0] as u32;
        let y = b[0] as u32;
        assert(x != y) by {
            if x == y {
                vstd::utf8::char_u32_cast(a[0], x);
                vstd::utf8::char_u32_cast(b[0], y);
            }
        }
    }
}

} // verus!
