//! Verified text helpers for the protocol parser: whitespace
//! tokenization, splitting on a separator, decimal numbers and string
//! comparison, each specified over `Seq<char>`.

use vstd::prelude::*;
use vstd::string::StrSliceExecFns;
use vstd::string::StringExecFns;

verus! {

/// The whitespace characters the protocol can separate tokens with.
pub open spec fn is_ws(c: char) -> bool {
    c == ' ' || c == '\t' || c == '\r' || c == '\n'
}

/// Length of the leading run of non-whitespace characters.
pub open spec fn token_len(s: Seq<char>) -> nat
    decreases s.len(),
{
    if s.len() == 0 || is_ws(s[0]) {
        0
    } else {
        (1 + token_len(s.skip(1))) as nat
    }
}

/// The leading token never reaches past the end of the string.
proof fn lemma_token_len_le(s: Seq<char>)
    ensures
        token_len(s) <= s.len(),
    decreases s.len(),
{
    if s.len() > 0 && !is_ws(s[0]) {
        lemma_token_len_le(s.skip(1));
    }
}

/// The whitespace-separated tokens of `s`, in order, without empties:
/// what splitting on runs of whitespace leaves.
pub open spec fn spec_tokens(s: Seq<char>) -> Seq<Seq<char>>
    decreases s.len(),
    via spec_tokens_decreases
{
    if s.len() == 0 {
        Seq::empty()
    } else if is_ws(s[0]) {
        spec_tokens(s.skip(1))
    } else {
        seq![s.take(token_len(s) as int)] + spec_tokens(s.skip(token_len(s) as int))
    }
}

#[via_fn]
proof fn spec_tokens_decreases(s: Seq<char>) {
    if s.len() > 0 && !is_ws(s[0]) {
        lemma_token_len_le(s);
        assert(token_len(s) >= 1);
    }
}

/// A leading non-whitespace run that ends at `j` (the end of `s`, or a
/// whitespace character) is the leading token.
proof fn lemma_token_len_is(s: Seq<char>, j: int)
    requires
        0 <= j <= s.len(),
        forall|k: int| 0 <= k < j ==> !is_ws(s[k]),
        j == s.len() || is_ws(s[j]),
    ensures
        token_len(s) == j,
    decreases j,
{
    if j == 0 {
    } else {
        lemma_token_len_is(s.skip(1), j - 1);
    }
}

/// Splitting off a maximal leading token splits the token list.
proof fn lemma_tokens_step(s: Seq<char>, j: int)
    requires
        0 < j <= s.len(),
        forall|k: int| 0 <= k < j ==> !is_ws(s[k]),
        j == s.len() || is_ws(s[j]),
    ensures
        spec_tokens(s) == seq![s.take(j)] + spec_tokens(s.skip(j)),
{
    lemma_token_len_is(s, j);
}

/// Whether `c` is one of the whitespace characters of `is_ws`.
fn is_ws_char(c: char) -> (r: bool)
    ensures
        r == is_ws(c),
{
    c == ' ' || c == '\t' || c == '\r' || c == '\n'
}

/// Splits a line into its whitespace-separated tokens, in order,
/// dropping the whitespace and producing no empty token.
pub fn tokenize(s: &str) -> (out: Vec<String>)
    ensures
        out.deep_view() == spec_tokens(s@),
{
    let n = s.unicode_len();
    let mut out: Vec<String> = Vec::new();
    let mut i: usize = 0;
    proof {
        assert(out.deep_view() =~~= Seq::<Seq<char>>::empty());
        assert(s@.skip(0) =~= s@);
        assert(out.deep_view() + spec_tokens(s@.skip(0)) =~~= spec_tokens(s@));
    }
    while i < n
        invariant
            i <= n,
            n == s@.len(),
            out.deep_view() + spec_tokens(s@.skip(i as int)) == spec_tokens(s@),
        decreases n - i,
    {
        let c = s.get_char(i);
        if is_ws_char(c) {
            proof {
                let t = s@.skip(i as int);
                assert(t[0] == s@[i as int]);
                assert(t.skip(1) =~= s@.skip(i as int + 1));
                assert(spec_tokens(t) == spec_tokens(s@.skip(i as int + 1)));
            }
            i += 1;
        } else {
            let mut j = i + 1;
            while j < n && !is_ws_char(s.get_char(j))
                invariant
                    i < j <= n,
                    n == s@.len(),
                    forall|k: int| i <= k < j ==> !is_ws(s@[k]),
                decreases n - j,
            {
                j += 1;
            }
            let tok = s.substring_char(i, j);
            let ghost pre = out.deep_view();
            out.push(String::from_str(tok));
            proof {
                let t = s@.skip(i as int);
                assert forall|k: int| 0 <= k < j - i implies !is_ws(t[k]) by {
                    assert(t[k] == s@[i + k]);
                }
                if j < n {
                    assert(t[j - i] == s@[j as int]);
                }
                lemma_tokens_step(t, j - i);
                assert(t.take(j - i) =~= s@.subrange(i as int, j as int));
                assert(t.skip(j - i) =~= s@.skip(j as int));
                assert(out.deep_view() =~~= pre + seq![tok@]);
                assert((pre + seq![tok@]) + spec_tokens(s@.skip(j as int)) =~~= pre + (seq![tok@]
                    + spec_tokens(s@.skip(j as int))));
            }
            i = j;
        }
    }
    proof {
        assert(s@.skip(n as int) =~= Seq::<char>::empty());
        assert(out.deep_view() =~~= spec_tokens(s@));
    }
    out
}

/// Length of the leading run of characters other than `sep`.
pub open spec fn piece_len(s: Seq<char>, sep: char) -> nat
    decreases s.len(),
{
    if s.len() == 0 || s[0] == sep {
        0
    } else {
        (1 + piece_len(s.skip(1), sep)) as nat
    }
}

/// The pieces of `s` between occurrences of `sep`, in order. Empty
/// pieces are kept: an empty string has the one empty piece, and a
/// trailing separator ends with one.
pub open spec fn split_on(s: Seq<char>, sep: char) -> Seq<Seq<char>>
    decreases s.len(),
{
    if s.len() == 0 {
        seq![Seq::<char>::empty()]
    } else if s[0] == sep {
        seq![Seq::<char>::empty()] + split_on(s.skip(1), sep)
    } else {
        let rest = split_on(s.skip(1), sep);
        seq![seq![s[0]] + rest[0]] + rest.skip(1)
    }
}

/// A split has at least the one piece.
pub proof fn lemma_split_on_len(s: Seq<char>, sep: char)
    ensures
        split_on(s, sep).len() >= 1,
    decreases s.len(),
{
    if s.len() == 0 {
    } else {
        lemma_split_on_len(s.skip(1), sep);
    }
}

/// A leading separator-free run that ends at `j` (the end of `s` or a
/// separator) is the first piece, and the remaining pieces are those of
/// what follows the separator.
proof fn lemma_split_on_step(s: Seq<char>, sep: char, j: int)
    requires
        0 <= j <= s.len(),
        forall|k: int| 0 <= k < j ==> s[k] != sep,
        j == s.len() || s[j] == sep,
    ensures
        j == s.len() ==> split_on(s, sep) == seq![s.take(j)],
        j < s.len() ==> split_on(s, sep) == seq![s.take(j)] + split_on(s.skip(j + 1), sep),
    decreases j,
{
    lemma_split_on_len(s, sep);
    if j == 0 {
        if s.len() == 0 {
            assert(split_on(s, sep) =~~= seq![s.take(0)]);
        } else {
            assert(s.skip(1) =~= s.skip(j + 1));
            assert(split_on(s, sep) =~~= seq![s.take(0)] + split_on(s.skip(1), sep));
        }
    } else {
        let t = s.skip(1);
        assert forall|k: int| 0 <= k < j - 1 implies t[k] != sep by {
            assert(t[k] == s[k + 1]);
        }
        if j < s.len() {
            assert(t[j - 1] == s[j as int]);
        }
        lemma_split_on_step(t, sep, j - 1);
        lemma_split_on_len(t, sep);
        let rest = split_on(t, sep);
        assert(seq![s[0]] + rest[0] =~= s.take(j));
        if j == s.len() {
            assert(split_on(s, sep) =~~= seq![s.take(j)]);
        } else {
            assert(t.skip(j) =~= s.skip(j + 1));
            assert(split_on(s, sep) =~~= seq![s.take(j)] + split_on(s.skip(j + 1), sep));
        }
    }
}

/// Splits `s` at every occurrence of `sep`, keeping empty pieces, as
/// `split_on` describes.
pub fn split_char(s: &str, sep: char) -> (out: Vec<String>)
    ensures
        out.deep_view() == split_on(s@, sep),
{
    let n = s.unicode_len();
    let mut out: Vec<String> = Vec::new();
    let mut i: usize = 0;
    proof {
        assert(out.deep_view() =~~= Seq::<Seq<char>>::empty());
        assert(s@.skip(0) =~= s@);
        assert(out.deep_view() + split_on(s@.skip(0), sep) =~~= split_on(s@, sep));
    }
    loop
        invariant_except_break
            i <= n,
            n == s@.len(),
            out.deep_view() + split_on(s@.skip(i as int), sep) == split_on(s@, sep),
        ensures
            out.deep_view() == split_on(s@, sep),
        decreases n - i + 1,
    {
        let mut j = i;
        while j < n && s.get_char(j) != sep
            invariant
                i <= j <= n,
                n == s@.len(),
                forall|k: int| i <= k < j ==> s@[k] != sep,
            decreases n - j,
        {
            j += 1;
        }
        let piece = s.substring_char(i, j);
        let ghost pre = out.deep_view();
        out.push(String::from_str(piece));
        proof {
            let t = s@.skip(i as int);
            assert forall|k: int| 0 <= k < j - i implies t[k] != sep by {
                assert(t[k] == s@[i + k]);
            }
            if j < n {
                assert(t[j - i] == s@[j as int]);
            }
            lemma_split_on_step(t, sep, j - i);
            assert(t.take(j - i) =~= s@.subrange(i as int, j as int));
            assert(out.deep_view() =~~= pre + seq![piece@]);
            if j < n {
                assert(t.skip(j - i + 1) =~= s@.skip(j as int + 1));
                assert((pre + seq![piece@]) + split_on(s@.skip(j as int + 1), sep) =~~= pre + (seq![
                    piece@,
                ] + split_on(s@.skip(j as int + 1), sep)));
            } else {
                assert(pre + split_on(t, sep) =~~= pre + seq![piece@]);
            }
        }
        if j == n {
            break ;
        }
        i = j + 1;
    }
    out
}

/// Whether `c` is a decimal digit.
pub open spec fn is_digit(c: char) -> bool {
    '0' as u32 <= c as u32 <= '9' as u32
}

/// The value of the digit `c`.
pub open spec fn digit_val(c: char) -> int {
    c as u32 - '0' as u32
}

/// The value of `s` read as a decimal numeral.
pub open spec fn dec_val(s: Seq<char>) -> int
    decreases s.len(),
{
    if s.len() == 0 {
        0
    } else {
        dec_val(s.drop_last()) * 10 + digit_val(s.last())
    }
}

/// Whether `s` is a decimal numeral that a u64 can hold: nonempty, all
/// digits, value at most `u64::MAX`.
pub open spec fn is_u64_text(s: Seq<char>) -> bool {
    s.len() > 0 && (forall|k: int| 0 <= k < s.len() ==> is_digit(s[k])) && dec_val(s) <= u64::MAX
}

/// A numeral of digits has a nonnegative value.
proof fn lemma_dec_val_nonneg(s: Seq<char>)
    requires
        forall|k: int| 0 <= k < s.len() ==> is_digit(s[k]),
    ensures
        dec_val(s) >= 0,
    decreases s.len(),
{
    if s.len() > 0 {
        lemma_dec_val_nonneg(s.drop_last());
    }
}

/// Extending a numeral of digits never lowers its value.
proof fn lemma_dec_val_prefix_le(s: Seq<char>, i: int)
    requires
        0 <= i <= s.len(),
        forall|k: int| 0 <= k < s.len() ==> is_digit(s[k]),
    ensures
        dec_val(s.take(i)) <= dec_val(s),
    decreases s.len() - i,
{
    if i == s.len() {
        assert(s.take(i) =~= s);
    } else {
        lemma_dec_val_prefix_le(s, i + 1);
        assert(s.take(i + 1).drop_last() =~= s.take(i));
        lemma_dec_val_nonneg(s.take(i));
        assert(dec_val(s.take(i + 1)) == dec_val(s.take(i)) * 10 + digit_val(s[i]));
    }
}

/// Reads a decimal numeral as a u64. Absent exactly when the string is
/// empty, holds a non-digit, or names a value above `u64::MAX`; present
/// with the numeral's value otherwise.
pub fn parse_u64(s: &str) -> (r: Option<u64>)
    ensures
        match r {
            Some(v) => is_u64_text(s@) && v == dec_val(s@),
            None => !is_u64_text(s@),
        },
{
    let n = s.unicode_len();
    if n == 0 {
        return None;
    }
    let mut acc: u64 = 0;
    let mut i: usize = 0;
    while i < n
        invariant
            i <= n,
            n == s@.len(),
            forall|k: int| 0 <= k < i ==> is_digit(s@[k]),
            acc == dec_val(s@.take(i as int)),
        decreases n - i,
    {
        let c = s.get_char(i);
        let cv = c as u32;
        if cv < 48 || cv > 57 {
            return None;
        }
        let d = (cv - 48) as u64;
        proof {
            assert(s@.take(i as int + 1).drop_last() =~= s@.take(i as int));
            assert(dec_val(s@.take(i as int + 1)) == dec_val(s@.take(i as int)) * 10 + digit_val(
                s@[i as int],
            ));
        }
        let grown = match acc.checked_mul(10) {
            Some(m) => m.checked_add(d),
            None => None,
        };
        match grown {
            Some(a) => {
                acc = a;
            },
            None => {
                proof {
                    if forall|k: int| 0 <= k < s@.len() ==> is_digit(s@[k]) {
                        lemma_dec_val_prefix_le(s@, i as int + 1);
                    }
                }
                return None;
            },
        }
        i += 1;
    }
    proof {
        assert(s@.take(n as int) =~= s@);
    }
    Some(acc)
}

/// Character-for-character string equality.
pub fn text_eq(a: &str, b: &str) -> (r: bool)
    ensures
        r == (a@ == b@),
{
    let n = a.unicode_len();
    let m = b.unicode_len();
    if n != m {
        return false;
    }
    let mut i: usize = 0;
    while i < n
        invariant
            i <= n,
            n == a@.len(),
            n == b@.len(),
            forall|k: int| 0 <= k < i ==> a@[k] == b@[k],
        decreases n - i,
    {
        if a.get_char(i) != b.get_char(i) {
            return false;
        }
        i += 1;
    }
    proof {
        assert(a@ =~= b@);
    }
    true
}

} // verus!
