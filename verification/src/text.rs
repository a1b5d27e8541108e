//! Source text: its characters, and the tokens between its whitespace.

use vstd::prelude::*;
use vstd::std_specs::iter::IteratorSpec;

verus! {

/// The characters of `s`, in order.
pub fn chars_of(s: &str) -> (v: Vec<char>)
    ensures
        v@ == s@,
{
    let mut v: Vec<char> = Vec::new();
    for c in it: s.chars()
        invariant
            v@ == s@.take(it.index() as int),
            it.seq() == s@,
    {
        v.push(c);
    }
    v
}

/// Whether `c` separates tokens: the characters that Unicode classes as
/// white space.
pub open spec fn is_whitespace_spec(c: char) -> bool {
    let n = c as u32;
    ||| 0x09 <= n <= 0x0D
    ||| n == 0x20
    ||| n == 0x85
    ||| n == 0xA0
    ||| n == 0x1680
    ||| 0x2000 <= n <= 0x200A
    ||| n == 0x2028
    ||| n == 0x2029
    ||| n == 0x202F
    ||| n == 0x205F
    ||| n == 0x3000
}

/// Whether `c` separates tokens.
#[verifier::when_used_as_spec(is_whitespace_spec)]
pub fn is_whitespace(c: char) -> (b: bool)
    ensures
        b == is_whitespace_spec(c),
{
    let n: u32 = c as u32;
    (0x09 <= n && n <= 0x0D) || n == 0x20 || n == 0x85 || n == 0xA0 || n == 0x1680 || (0x2000 <= n
        && n <= 0x200A) || n == 0x2028 || n == 0x2029 || n == 0x202F || n == 0x205F || n == 0x3000
}

/// How many characters stand at the start of `s` before its first
/// whitespace, or its end.
pub open spec fn token_len(s: Seq<char>) -> nat
    decreases s.len(),
{
    if s.len() == 0 || is_whitespace(s[0]) {
        0
    } else {
        1 + token_len(s.skip(1))
    }
}

/// The tokens of `s`: its longest runs of characters without whitespace,
/// in the order in which they stand.
pub open spec fn tokens(s: Seq<char>) -> Seq<Seq<char>>
    decreases s.len(),
{
    if s.len() == 0 {
        Seq::empty()
    } else if is_whitespace(s[0]) {
        tokens(s.skip(1))
    } else {
        let n = token_len(s);
        proof {
            lemma_token_len_bounds(s);
        }
        seq![s.take(n as int)] + tokens(s.skip(n as int))
    }
}

/// A token's length is within the text, and positive where the text starts
/// with a character that is no whitespace.
pub proof fn lemma_token_len_bounds(s: Seq<char>)
    ensures
        token_len(s) <= s.len(),
        s.len() > 0 && !is_whitespace(s[0]) ==> token_len(s) > 0,
    decreases s.len(),
{
    if s.len() > 0 && !is_whitespace(s[0]) {
        lemma_token_len_bounds(s.skip(1));
    }
}

/// The first token of a text holds no whitespace.
proof fn lemma_first_token_clean(s: Seq<char>, k: int)
    requires
        0 <= k < token_len(s),
    ensures
        k < s.len(),
        !is_whitespace(s[k]),
    decreases s.len(),
{
    if k > 0 {
        lemma_first_token_clean(s.skip(1), k - 1);
    }
}

/// No token is empty, and none holds whitespace.
pub proof fn lemma_tokens_clean(s: Seq<char>, i: int)
    requires
        0 <= i < tokens(s).len(),
    ensures
        tokens(s)[i].len() > 0,
        forall|k: int| 0 <= k < tokens(s)[i].len() ==> !is_whitespace(#[trigger] tokens(s)[i][k]),
    decreases s.len(),
{
    if is_whitespace(s[0]) {
        lemma_tokens_clean(s.skip(1), i);
    } else {
        let n = token_len(s) as int;
        lemma_token_len_bounds(s);
        if i == 0 {
            assert forall|k: int| 0 <= k < n implies !is_whitespace(#[trigger] s.take(n)[k]) by {
                lemma_first_token_clean(s, k);
            }
        } else {
            lemma_tokens_clean(s.skip(n), i - 1);
        }
    }
}

/// Splits characters into tokens.
pub fn split(chars: &[char]) -> (out: Vec<Vec<char>>)
    ensures
        out.deep_view() == tokens(chars@),
{
    let n = chars.len();
    let mut out: Vec<Vec<char>> = Vec::new();
    let mut i: usize = 0;
    assert(chars@.skip(0) =~= chars@);
    while i < n
        invariant
            i <= n == chars@.len(),
            tokens(chars@) == out.deep_view() + tokens(chars@.skip(i as int)),
        decreases n - i,
    {
        let ghost rest = chars@.skip(i as int);
        if is_whitespace(chars[i]) {
            assert(rest.skip(1) =~= chars@.skip(i + 1));
            i += 1;
        } else {
            let mut token: Vec<char> = Vec::new();
            let mut j: usize = i;
            while j < n && !is_whitespace(chars[j])
                invariant
                    i <= j <= n == chars@.len(),
                    rest == chars@.skip(i as int),
                    token@ == rest.take(j - i),
                    token_len(rest) == (j - i) + token_len(chars@.skip(j as int)),
                decreases n - j,
            {
                assert(chars@.skip(j as int).skip(1) =~= chars@.skip(j + 1));
                assert(rest.take(j + 1 - i) =~= rest.take(j - i).push(chars@[j as int]));
                token.push(chars[j]);
                j += 1;
            }
            assert(token_len(chars@.skip(j as int)) == 0);
            assert(rest.skip(j - i) =~= chars@.skip(j as int));
            let ghost before = out.deep_view();
            out.push(token);
            assert(out.deep_view() =~~= before + seq![rest.take(j - i)]);
            i = j;
        }
    }
    assert(tokens(chars@.skip(n as int)) =~= Seq::<Seq<char>>::empty());
    out
}

/// Splits source text into tokens.
pub fn tokenize(source: &str) -> (out: Vec<Vec<char>>)
    ensures
        out.deep_view() == tokens(source@),
{
    let chars = chars_of(source);
    split(chars.as_slice())
}

} // verus!
