use vstd::prelude::*;
use crate::text::{ascii_upper, ascii_lower, unicode_uppercase, str_chars, string_from_chars, char_is_uppercase};

verus! {

/// Pascal case from index `i` on: separators `_` and `-` are dropped and the
/// character after one (or the first, when `cap`) is upper-cased in ASCII.
pub open spec fn pascal_from(s: Seq<char>, i: int, cap: bool) -> Seq<char>
    decreases s.len() - i,
{
    if i < 0 || i >= s.len() {
        Seq::empty()
    } else if s[i] == '_' || s[i] == '-' {
        pascal_from(s, i + 1, true)
    } else if cap {
        seq![ascii_upper(s[i])] + pascal_from(s, i + 1, false)
    } else {
        seq![s[i]] + pascal_from(s, i + 1, false)
    }
}

/// What snake case makes of the character at index `i`: `-` becomes `_`, an
/// upper-case character becomes its ASCII lower case, after a `_` unless it
/// comes first.
pub open spec fn snake_piece(c: char, i: int) -> Seq<char> {
    if c == '-' {
        seq!['_']
    } else if unicode_uppercase(c) {
        if i > 0 { seq!['_', ascii_lower(c)] } else { seq![ascii_lower(c)] }
    } else {
        seq![c]
    }
}

/// Snake case from index `i` on.
pub open spec fn snake_from(s: Seq<char>, i: int) -> Seq<char>
    decreases s.len() - i,
{
    if i < 0 || i >= s.len() {
        Seq::empty()
    } else {
        snake_piece(s[i], i) + snake_from(s, i + 1)
    }
}

fn upper_ascii(c: char) -> (r: char)
    ensures
        r == ascii_upper(c),
{
    if 'a' <= c && c <= 'z' {
        ((c as u8) - 32) as char
    } else {
        c
    }
}

fn lower_ascii(c: char) -> (r: char)
    ensures
        r == ascii_lower(c),
{
    if 'A' <= c && c <= 'Z' {
        ((c as u8) + 32) as char
    } else {
        c
    }
}

/// `snake_case` or `kebab-case` to `PascalCase`.
pub fn to_pascal_case(s: &str) -> (r: String)
    ensures
        r@ == pascal_from(s@, 0, true),
{
    let cs = str_chars(s);
    let mut out: Vec<char> = Vec::new();
    let mut cap = true;
    let mut i: usize = 0;
    while i < cs.len()
        invariant
            i <= cs@.len(),
            cs@ == s@,
            pascal_from(s@, 0, true) == out@ + pascal_from(s@, i as int, cap),
        decreases cs@.len() - i,
    {
        let c = cs[i];
        let ghost before = out@;
        if c == '_' || c == '-' {
            cap = true;
        } else if cap {
            out.push(upper_ascii(c));
            cap = false;
            proof {
                assert(before + (seq![ascii_upper(c)] + pascal_from(s@, i + 1, false)) =~= out@
                    + pascal_from(s@, i + 1, false));
            }
        } else {
            out.push(c);
            proof {
                assert(before + (seq![c] + pascal_from(s@, i + 1, false)) =~= out@ + pascal_from(
                    s@,
                    i + 1,
                    false,
                ));
            }
        }
        i = i + 1;
    }
    proof {
        assert(out@ + Seq::<char>::empty() =~= out@);
    }
    string_from_chars(&out)
}

/// `PascalCase`, `camelCase` or `kebab-case` to `snake_case`.
pub fn to_snake_case(s: &str) -> (r: String)
    ensures
        r@ == snake_from(s@, 0),
{
    let cs = str_chars(s);
    let mut out: Vec<char> = Vec::new();
    let mut i: usize = 0;
    while i < cs.len()
        invariant
            i <= cs@.len(),
            cs@ == s@,
            snake_from(s@, 0) == out@ + snake_from(s@, i as int),
        decreases cs@.len() - i,
    {
        let c = cs[i];
        let ghost before = out@;
        if c == '-' {
            out.push('_');
        } else if char_is_uppercase(c) {
            if i > 0 {
                out.push('_');
            }
            out.push(lower_ascii(c));
        } else {
            out.push(c);
        }
        proof {
            assert(out@ =~= before + snake_piece(c, i as int));
            assert(before + (snake_piece(c, i as int) + snake_from(s@, i + 1)) =~= out@ + snake_from(
                s@,
                i + 1,
            ));
        }
        i = i + 1;
    }
    proof {
        assert(out@ + Seq::<char>::empty() =~= out@);
    }
    string_from_chars(&out)
}


/// Pascal case drops every separator: no `_` or `-` is left, and the
/// character after a separator (and the first one) is no lower-case ASCII
/// letter.
pub proof fn lemma_pascal_has_no_separators(s: Seq<char>, i: int, cap: bool)
    ensures
        forall|k: int| 0 <= k < pascal_from(s, i, cap).len() ==> #[trigger] pascal_from(s, i, cap)[k] != '_'
            && pascal_from(s, i, cap)[k] != '-',
        cap && pascal_from(s, i, cap).len() > 0 ==> !('a' <= pascal_from(s, i, cap)[0] <= 'z'),
    decreases s.len() - i,
{
    if 0 <= i < s.len() {
        if s[i] == '_' || s[i] == '-' {
            lemma_pascal_has_no_separators(s, i + 1, true);
        } else {
            lemma_pascal_has_no_separators(s, i + 1, false);
            let c = s[i];
            let head = if cap { ascii_upper(c) } else { c };
            assert(cap ==> !('a' <= ascii_upper(c) <= 'z')) by {
                if 'a' <= c <= 'z' {
                    assert(((c as u32) - 32) as char as u32 == (c as u32) - 32) by {
                        vstd::utf8::char_u32_cast(((c as u32) - 32) as char, ((c as u32) - 32) as u32);
                    }
                }
            }
            assert(head != '_' && head != '-') by {
                if cap && 'a' <= c <= 'z' {
                    vstd::utf8::char_u32_cast(((c as u32) - 32) as char, ((c as u32) - 32) as u32);
                }
            }
            let rest = pascal_from(s, i + 1, false);
            assert(pascal_from(s, i, cap) == seq![head] + rest);
            assert forall|k: int| 0 <= k < pascal_from(s, i, cap).len() implies #[trigger] pascal_from(s, i, cap)[k]
                != '_' && pascal_from(s, i, cap)[k] != '-' by {
                if k > 0 {
                    assert(pascal_from(s, i, cap)[k] == rest[k - 1]);
                }
            }
        }
    }
}

} // verus!
