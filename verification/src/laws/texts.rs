//! How texts are taken apart and put together, and how numbers are written and read.

#[allow(unused_imports)]
use crate::number::{
    as_double, decimal, decimal_int, digits_value, excess_bits, half_even, i32_value, int_value,
};
#[allow(unused_imports)]
use crate::text::{
    fits, is_space, leading, lemma_leading, lemma_leading_is, lemma_trailing_is, lines, mentions,
    occurs_at, replaced, split_char, split_once, trim_end, trim_start, trimmed, words, Run,
};
#[allow(unused_imports)]
use crate::ui::preview::size_text;
use vstd::prelude::*;

verus! {

proof fn lemma_digits(n: nat)
    ensures
        decimal(n).len() > 0,
        digits_value(decimal(n)) == Some(n as int),
        decimal(n)[0] != '-' && decimal(n)[0] != '+',
        forall|k: int| 0 <= k < decimal(n).len() ==> '0' <= #[trigger] decimal(n)[k] <= '9',
    decreases n,
{
    let s = decimal(n);
    if n >= 10 {
        lemma_digits(n / 10);
        assert(s.drop_last() =~= decimal(n / 10));
        assert(s[0] == decimal(n / 10)[0]);
        assert forall|k: int| 0 <= k < s.len() implies '0' <= #[trigger] s[k] <= '9' by {
            if k < s.len() - 1 {
                assert(s[k] == decimal(n / 10)[k]);
            }
        }
    }
}

/// A number that was written is read back.
pub proof fn numbers_are_read_back(n: int)
    ensures
        n >= 0 ==> digits_value(decimal(n as nat)) == Some(n),
        int_value(decimal_int(n)) == Some(n),
        i32::MIN <= n <= i32::MAX ==> i32_value(decimal_int(n)) == Some(n as i32),
{
    reveal_strlit("-");
    let s = decimal_int(n);
    if n < 0 {
        lemma_digits((-n) as nat);
        assert(s.skip(1) =~= decimal((-n) as nat));
        assert forall|k: int| 0 <= k < s.len() implies !is_space(#[trigger] s[k]) by {
            if k > 0 {
                assert(s[k] == decimal((-n) as nat)[k - 1]);
            }
        }
    } else {
        lemma_digits(n as nat);
    }
    let nothing = Seq::<char>::empty();
    surroundings_are_trimmed(nothing, s, nothing);
    assert(nothing + s + nothing =~= s);
}

/// Rounding takes the nearest integer, and of two the even one.
pub proof fn roundings_are_nearest(num: nat, den: nat)
    requires
        den > 0,
    ensures
        2 * num <= (2 * half_even(num, den) + 1) * den,
        (2 * half_even(num, den) - 1) * den <= 2 * num,
        2 * num == (2 * half_even(num, den) + 1) * den || 2 * num == (2 * half_even(num, den) - 1)
            * den ==> half_even(num, den) % 2 == 0,
{
    let q = num / den;
    let r = num % den;
    assert(num == q * den + r) by {
        vstd::arithmetic::div_mod::lemma_fundamental_div_mod(num as int, den as int);
        assert(den * q == q * den) by (nonlinear_arith);
    }
    assert((2 * q + 1) * den == 2 * (q * den) + den) by (nonlinear_arith);
    assert((2 * (q + 1) - 1) * den == 2 * (q * den) + den) by (nonlinear_arith);
    assert((2 * (q + 1) + 1) * den == 2 * (q * den) + 3 * den) by (nonlinear_arith);
    assert((2 * q - 1) * den == 2 * (q * den) - den) by (nonlinear_arith);
}

proof fn lemma_whole(k: nat, m: nat, den: nat)
    requires
        den > 0,
    ensures
        half_even(k * den * m, den) == k * m,
{
    assert(k * den * m == (k * m) * den) by (nonlinear_arith);
    let n = k * m;
    assert((n * den) / den == n && (n * den) % den == 0) by {
        vstd::arithmetic::div_mod::lemma_fundamental_div_mod_converse(
            (n * den) as int,
            den as int,
            n as int,
            0,
        );
    }
}

proof fn lemma_exact(n: nat)
    requires
        n < 0x20_0000_0000_0000,
    ensures
        as_double(n) == n,
{
    vstd::arithmetic::power2::lemma2_to64();
    assert(excess_bits(n) == 0);
    assert(n / 1 == n && n % 1 == 0);
}

/// Whole sizes are given as they are, in the unit that suits them: bytes, and from a thousand and
/// twenty-four of one unit on the next.
pub proof fn whole_sizes_are_given_as_they_are(k: nat)
    requires
        0 < k < 1024,
    ensures
        size_text(k) == decimal(k) + " B"@,
        size_text(k * 1024) == decimal(k) + ".0"@ + " KiB"@,
        size_text(k * 1024 * 1024) == decimal(k) + ".0"@ + " MiB"@,
        size_text(k * 1024 * 1024 * 1024) == decimal(k) + ".00"@ + " GiB"@,
{
    lemma_exact(k * 1024);
    lemma_exact(k * 1024 * 1024);
    lemma_exact(k * 1024 * 1024 * 1024);
    lemma_whole(k, 10, 0x400);
    lemma_whole(k, 10, 0x10_0000);
    lemma_whole(k, 100, 0x4000_0000);
    reveal_strlit(".0");
    reveal_strlit(".00");
    reveal_strlit(".");
    reveal_with_fuel(decimal, 2);
    let zero = decimal(0);
    assert(zero =~= seq!['0']);
    assert(decimal(k) + "."@ + zero =~= decimal(k) + ".0"@);
    assert(decimal(k) + "."@ + zero + zero =~= decimal(k) + ".00"@);
    assert((k * 10) / 10 == k && (k * 10) % 10 == 0);
    assert((k * 100) / 100 == k && (k * 100) % 100 == 0 && (k * 100) % 10 == 0);
}

proof fn lemma_split_head(a: Seq<char>, b: Seq<char>, c: char)
    requires
        !a.contains(c),
    ensures
        leading(a + seq![c] + b, Run::Except(c)) == a.len(),
        (a + seq![c] + b).take(a.len() as int) == a,
        (a + seq![c] + b).skip(a.len() as int + 1) == b,
{
    let s = a + seq![c] + b;
    let n = a.len() as int;
    assert forall|i: int| 0 <= i < n implies fits(Run::Except(c), #[trigger] s[i]) by {
        assert(s[i] == a[i]);
        assert(a.contains(a[i]));
    }
    assert(s[n] == c);
    lemma_leading_is(s, Run::Except(c), n);
    assert(s.take(n) =~= a);
    assert(s.skip(n + 1) =~= b);
}

proof fn lemma_no_split(s: Seq<char>, c: char)
    requires
        !s.contains(c),
    ensures
        leading(s, Run::Except(c)) == s.len(),
{
    lemma_leading(s, Run::Except(c));
    let n = leading(s, Run::Except(c));
    if n < s.len() {
        assert(s.contains(s[n]));
    }
}

/// A text is cut at the first of its marks, and not at all where there is none.
pub proof fn texts_are_cut_at_the_first_mark(a: Seq<char>, b: Seq<char>, c: char)
    requires
        !a.contains(c),
    ensures
        split_once(a + seq![c] + b, c) == Some((a, b)),
        split_once(a, c) is None,
        split_char(a, c) == seq![a],
        split_char(a + seq![c] + b, c) == seq![a] + split_char(b, c),
{
    lemma_split_head(a, b, c);
    lemma_no_split(a, c);
}

/// The lines of a text are what stands between its line ends, without the return before them; what
/// follows the last line end is a line where there is anything.
pub proof fn lines_stand_between_line_ends(line: Seq<char>, rest: Seq<char>)
    requires
        !line.contains('\n'),
        line.len() > 0 ==> line.last() != '\r',
    ensures
        lines(seq![]).len() == 0,
        line.len() > 0 ==> lines(line) == seq![line],
        lines(line + seq!['\n'] + rest) == seq![line] + lines(rest),
        lines(line + seq!['\r', '\n'] + rest) == seq![line] + lines(rest),
{
    lemma_split_head(line, rest, '\n');
    lemma_no_split(line, '\n');
    let marked = line + seq!['\r'];
    assert(!marked.contains('\n')) by {
        if marked.contains('\n') {
            let k = choose|k: int| 0 <= k < marked.len() && marked[k] == '\n';
            assert(line[k] == '\n');
        }
    }
    lemma_split_head(marked, rest, '\n');
    assert(marked + seq!['\n'] + rest =~= line + seq!['\r', '\n'] + rest);
    assert(marked.drop_last() =~= line);
}

/// The words of a text are what stands between its blanks.
pub proof fn words_stand_between_blanks(word: Seq<char>, blank: char, rest: Seq<char>)
    requires
        is_space(blank),
        word.len() > 0,
        forall|k: int| 0 <= k < word.len() ==> !is_space(#[trigger] word[k]),
    ensures
        words(seq![]).len() == 0,
        words(word) == seq![word],
        words(seq![blank] + rest) == words(rest),
        words(word + seq![blank] + rest) == seq![word] + words(rest),
{
    let a = seq![blank] + rest;
    assert(a[0] == blank);
    assert(a.skip(1) =~= rest);
    let s = word + seq![blank] + rest;
    let n = word.len() as int;
    assert forall|i: int| 0 <= i < n implies fits(Run::Word, #[trigger] s[i]) by {
        assert(s[i] == word[i]);
    }
    assert(s[n] == blank);
    lemma_leading_is(s, Run::Word, n);
    assert(s.take(n) =~= word);
    assert(s.skip(n) =~= a);
    assert(!is_space(word[0]));
    assert(s[0] == word[0]);
    assert forall|i: int| 0 <= i < n implies fits(Run::Word, #[trigger] word[i]) by {}
    lemma_leading_is(word, Run::Word, n);
    assert(word.take(n) =~= word);
    assert(word.skip(n) =~= seq![]);
    assert(words(seq![]) =~= seq![]);
    assert(seq![word] + Seq::<Seq<char>>::empty() =~= seq![word]);
}

/// The blanks around a text are left out, and nothing else.
pub proof fn surroundings_are_trimmed(a: Seq<char>, s: Seq<char>, b: Seq<char>)
    requires
        forall|k: int| 0 <= k < a.len() ==> is_space(#[trigger] a[k]),
        forall|k: int| 0 <= k < b.len() ==> is_space(#[trigger] b[k]),
        s.len() > 0,
        !is_space(s[0]),
        !is_space(s.last()),
    ensures
        trimmed(a + s + b) == s,
        trim_start(a + s + b) == s + b,
        trim_end(a + s + b) == a + s,
{
    let t = a + s + b;
    let n = a.len() as int;
    assert forall|i: int| 0 <= i < n implies fits(Run::Space, #[trigger] t[i]) by {
        assert(t[i] == a[i]);
    }
    assert(t[n] == s[0]);
    lemma_leading_is(t, Run::Space, n);
    assert(t.skip(n) =~= s + b);
    lemma_tail(a + s, b);
    lemma_tail(s, b);
}

proof fn lemma_tail(s: Seq<char>, b: Seq<char>)
    requires
        forall|k: int| 0 <= k < b.len() ==> is_space(#[trigger] b[k]),
        s.len() > 0,
        !is_space(s.last()),
    ensures
        trim_end(s + b) == s,
{
    let t = s + b;
    let n = b.len() as int;
    assert forall|i: int| t.len() - n <= i < t.len() implies fits(Run::Space, #[trigger] t[i]) by {
        assert(t[i] == b[i - (t.len() - n)]);
    }
    assert(t[t.len() - n - 1] == s.last());
    lemma_trailing_is(t, Run::Space, n);
    assert(t.take(t.len() - n) =~= s);
}

/// Every occurrence of what is replaced is replaced, from the start on; what is not replaced stays.
pub proof fn every_occurrence_is_replaced(from: Seq<char>, to: Seq<char>, c: char, rest: Seq<char>)
    requires
        from.len() > 0,
    ensures
        replaced(from + rest, from, to) == to + replaced(rest, from, to),
        !from.is_prefix_of(seq![c] + rest) ==> replaced(seq![c] + rest, from, to) == seq![c] + replaced(
            rest,
            from,
            to,
        ),
        !mentions(rest, from) ==> replaced(rest, from, to) == rest,
    decreases rest.len(),
{
    let s = from + rest;
    assert(s.subrange(0, from.len() as int) =~= from);
    assert(s.skip(from.len() as int) =~= rest);
    let t = seq![c] + rest;
    assert(t[0] == c);
    assert(t.skip(1) =~= rest);
    if t.len() < from.len() {
        assert(replaced(rest, from, to) == rest);
    } else if occurs_at(t, from, 0) {
        assert(t.subrange(0, from.len() as int) == from);
    }
    if !mentions(rest, from) && rest.len() > 0 {
        let tail = rest.skip(1);
        assert(!mentions(tail, from)) by {
            if mentions(tail, from) {
                let i = choose|i: int| occurs_at(tail, from, i);
                assert(rest.subrange(i + 1, i + 1 + from.len()) =~= tail.subrange(i, i + from.len()));
                assert(occurs_at(rest, from, i + 1));
            }
        }
        every_occurrence_is_replaced(from, to, c, tail);
        assert(seq![rest[0]] + tail =~= rest);
    }
}

} // verus!
