use vstd::prelude::*;

verus! {

/// The character of a decimal digit.
pub open spec fn digit_char(d: nat) -> char {
    if d == 0 { '0' }
    else if d == 1 { '1' }
    else if d == 2 { '2' }
    else if d == 3 { '3' }
    else if d == 4 { '4' }
    else if d == 5 { '5' }
    else if d == 6 { '6' }
    else if d == 7 { '7' }
    else if d == 8 { '8' }
    else { '9' }
}

/// The decimal notation of a natural number, without leading zeroes.
pub open spec fn decimal(n: nat) -> Seq<char>
    decreases n,
{
    if n < 10 {
        seq![digit_char(n)]
    } else {
        decimal(n / 10).push(digit_char(n % 10))
    }
}

fn digit_str(d: u64) -> (s: &'static str)
    requires
        d < 10,
    ensures
        s@ == seq![digit_char(d as nat)],
{
    proof {
        reveal_strlit("0");
        reveal_strlit("1");
        reveal_strlit("2");
        reveal_strlit("3");
        reveal_strlit("4");
        reveal_strlit("5");
        reveal_strlit("6");
        reveal_strlit("7");
        reveal_strlit("8");
        reveal_strlit("9");
    }
    if d == 0 { "0" }
    else if d == 1 { "1" }
    else if d == 2 { "2" }
    else if d == 3 { "3" }
    else if d == 4 { "4" }
    else if d == 5 { "5" }
    else if d == 6 { "6" }
    else if d == 7 { "7" }
    else if d == 8 { "8" }
    else { "9" }
}

/// Writes `n` in decimal notation.
pub fn decimal_text(n: u64) -> (s: String)
    ensures
        s@ == decimal(n as nat),
    decreases n,
{
    if n < 10 {
        String::from_str(digit_str(n))
    } else {
        let mut s = decimal_text(n / 10);
        s.append(digit_str(n % 10));
        s
    }
}

proof fn lemma_decimal_shape(n: nat)
    ensures
        decimal(n).len() >= 1,
        n < 10 <==> decimal(n).len() == 1,
        decimal(n).last() == digit_char(n % 10),
        n >= 10 ==> decimal(n).drop_last() == decimal(n / 10),
    decreases n,
{
    if n >= 10 {
        lemma_decimal_shape(n / 10);
        assert(decimal(n).drop_last() =~= decimal(n / 10));
    }
}

/// Different numbers are written differently: the decimal notation is
/// one-to-one.
pub proof fn law_decimal_one_to_one(a: nat, b: nat)
    ensures
        decimal(a) == decimal(b) ==> a == b,
    decreases a,
{
    lemma_decimal_shape(a);
    lemma_decimal_shape(b);
    if decimal(a) == decimal(b) {
        assert(digit_char(a % 10) == digit_char(b % 10));
        assert(a % 10 == b % 10);
        if a >= 10 {
            law_decimal_one_to_one(a / 10, b / 10);
        }
    }
}

/// Numbered labels with one prefix are equal only for equal numbers.
pub proof fn law_numbered_one_to_one(prefix: Seq<char>, a: nat, b: nat)
    ensures
        numbered(prefix, a) == numbered(prefix, b) ==> a == b,
{
    if numbered(prefix, a) == numbered(prefix, b) {
        assert(decimal(a) =~= numbered(prefix, a).skip(prefix.len() as int));
        assert(decimal(b) =~= numbered(prefix, b).skip(prefix.len() as int));
        law_decimal_one_to_one(a, b);
    }
}

/// The number a decimal digit character stands for (10 for any other
/// character).
pub open spec fn digit_value(c: char) -> nat {
    if c == '0' { 0 }
    else if c == '1' { 1 }
    else if c == '2' { 2 }
    else if c == '3' { 3 }
    else if c == '4' { 4 }
    else if c == '5' { 5 }
    else if c == '6' { 6 }
    else if c == '7' { 7 }
    else if c == '8' { 8 }
    else if c == '9' { 9 }
    else { 10 }
}

/// The number a run of digit characters is read as, most significant first.
pub open spec fn read_decimal(s: Seq<char>) -> nat
    decreases s.len(),
{
    if s.len() == 0 {
        0
    } else {
        read_decimal(s.drop_last()) * 10 + digit_value(s.last())
    }
}

/// The decimal notation of `n` is made of digits only, starts with a
/// non-zero digit unless `n` is 0, and reads back as `n`.
pub proof fn law_decimal_reads_back(n: nat)
    ensures
        read_decimal(decimal(n)) == n,
        forall|i: int| 0 <= i < decimal(n).len() ==> digit_value(#[trigger] decimal(n)[i]) < 10,
        n > 0 ==> decimal(n)[0] != '0',
    decreases n,
{
    lemma_decimal_shape(n);
    assert(digit_value(digit_char(n % 10)) == n % 10);
    if n < 10 {
        assert(decimal(n).drop_last() =~= Seq::<char>::empty());
        assert(read_decimal(decimal(n)) == read_decimal(decimal(n).drop_last()) * 10 + digit_value(decimal(n).last()));
    } else {
        law_decimal_reads_back(n / 10);
        assert(decimal(n).drop_last() == decimal(n / 10));
        assert(read_decimal(decimal(n)) == read_decimal(decimal(n / 10)) * 10 + digit_value(decimal(n).last()));
        assert((n / 10) * 10 + n % 10 == n);
        assert forall|i: int| 0 <= i < decimal(n).len() implies digit_value(
            #[trigger] decimal(n)[i],
        ) < 10 by {
            if i < decimal(n).len() - 1 {
                assert(decimal(n)[i] == decimal(n / 10)[i]);
            }
        }
        assert(decimal(n)[0] == decimal(n / 10)[0]);
    }
}

/// A numbered label is its prefix followed by the decimal notation of its
/// number.
pub proof fn law_numbered_splits(prefix: Seq<char>, n: nat)
    ensures
        numbered(prefix, n).take(prefix.len() as int) == prefix,
        read_decimal(numbered(prefix, n).skip(prefix.len() as int)) == n,
{
    assert(numbered(prefix, n).take(prefix.len() as int) =~= prefix);
    assert(numbered(prefix, n).skip(prefix.len() as int) =~= decimal(n));
    law_decimal_reads_back(n);
}

/// What `humansize::format_size` writes for `bytes` with the `DECIMAL`
/// options (such as "1.50 kB").
pub uninterp spec fn human_size(bytes: u64) -> Seq<char>;

/// Calls `humansize::format_size(bytes, humansize::DECIMAL)`. Trusted: the
/// text depends on `bytes` alone (the options are fixed), which is what the
/// name `human_size` says; what the text is is left to that name.
#[verifier::external_body]
pub(crate) fn format_size_decimal(bytes: u64) -> (s: String)
    ensures
        s@ == human_size(bytes),
{
    humansize::format_size(bytes, humansize::DECIMAL)
}

/// `prefix` followed by the decimal notation of `n`.
pub open spec fn numbered(prefix: Seq<char>, n: nat) -> Seq<char> {
    prefix + decimal(n)
}

/// Writes `prefix` followed by `n` in decimal notation.
pub fn numbered_text(prefix: &str, n: u64) -> (s: String)
    ensures
        s@ == numbered(prefix@, n as nat),
{
    let digits = decimal_text(n);
    let s = String::from_str(prefix);
    s.concat(digits.as_str())
}

} // verus!
