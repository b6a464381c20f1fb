//! What trimming, lower case and numerals mean.
use crate::text::{
    decimal, hexadecimal, is_white_space, lowered, numeral, trim_end, trim_start, trimmed,
};
use vstd::prelude::*;

verus! {

/// Lower case moves a capital ASCII letter to its small one, thirty-two places on, and
/// leaves every other character where and what it is.
pub proof fn lower_case_touches_capitals_only(s: Seq<char>, i: int)
    requires
        0 <= i < s.len(),
    ensures
        lowered(s).len() == s.len(),
        'A' <= s[i] <= 'Z' ==> lowered(s)[i] as int == s[i] as int + 32,
        !('A' <= s[i] <= 'Z') ==> lowered(s)[i] == s[i],
{
}

/// Lower case acts on each part of a text by itself.
pub proof fn lower_case_acts_on_parts(s: Seq<char>, t: Seq<char>)
    ensures
        lowered(s + t) == lowered(s) + lowered(t),
{
    assert(lowered(s + t) =~= lowered(s) + lowered(t));
}

/// Whether `s` is white space throughout.
pub open spec fn blank(s: Seq<char>) -> bool {
    forall|i: int| 0 <= i < s.len() ==> is_white_space(#[trigger] s[i])
}

/// Trimming takes the white space round a text away and leaves the text: what is between
/// the blanks is not touched, whatever it holds, as long as it neither begins nor ends in
/// white space.
pub proof fn trimming_leaves_what_is_between_the_blanks(
    left: Seq<char>,
    core: Seq<char>,
    right: Seq<char>,
)
    requires
        blank(left),
        blank(right),
        core.len() > 0 ==> !is_white_space(core.first()) && !is_white_space(core.last()),
    ensures
        trimmed(left + core + right) == core,
{
    lemma_skip_left(left, core + right);
    assert(left + core + right =~= left + (core + right));
    if core.len() > 0 {
        assert((core + right).first() == core.first());
        assert(trim_start(core + right) == core + right);
        lemma_skip_right(core, right);
    } else {
        assert(core + right =~= right);
        lemma_skip_left(right, Seq::<char>::empty());
        assert(right + Seq::<char>::empty() =~= right);
        assert(core =~= Seq::<char>::empty());
    }
}

proof fn lemma_skip_left(left: Seq<char>, s: Seq<char>)
    requires
        blank(left),
    ensures
        trim_start(left + s) == trim_start(s),
    decreases left.len(),
{
    if left.len() > 0 {
        assert((left + s).first() == left[0]);
        assert((left + s).drop_first() =~= left.drop_first() + s);
        assert(blank(left.drop_first())) by {
            assert forall|i: int| 0 <= i < left.drop_first().len() implies is_white_space(
                #[trigger] left.drop_first()[i],
            ) by {
                assert(left.drop_first()[i] == left[i + 1]);
            }
        }
        lemma_skip_left(left.drop_first(), s);
    } else {
        assert(left + s =~= s);
    }
}

proof fn lemma_skip_right(s: Seq<char>, right: Seq<char>)
    requires
        blank(right),
    ensures
        trim_end(s + right) == trim_end(s),
    decreases right.len(),
{
    if right.len() > 0 {
        assert((s + right).last() == right[right.len() - 1]);
        assert((s + right).drop_last() =~= s + right.drop_last());
        assert(blank(right.drop_last())) by {
            assert forall|i: int| 0 <= i < right.drop_last().len() implies is_white_space(
                #[trigger] right.drop_last()[i],
            ) by {
                assert(right.drop_last()[i] == right[i]);
            }
        }
        lemma_skip_right(s, right.drop_last());
    } else {
        assert(s + right =~= s);
    }
}

/// A numeral in any base grows by a digit at its end where the number grows as many times
/// as the base and by that digit; a number below the base is its digit.
pub proof fn numerals_grow_by_digits(n: nat, base: nat, d: nat)
    requires
        2 <= base <= 16,
        d < base,
    ensures
        ({
            let digit = if d < 10 {
                ('0' as int + d) as char
            } else {
                ('a' as int + d - 10) as char
            };
            &&& numeral(d, base) == seq![digit]
            &&& n > 0 ==> numeral(base * n + d, base) == numeral(n, base).push(digit)
        }),
{
    if n > 0 {
        vstd::arithmetic::div_mod::lemma_fundamental_div_mod_converse(
            (base * n + d) as int,
            base as int,
            n as int,
            d as int,
        );
        assert(base * n >= base) by (nonlinear_arith)
            requires
                n >= 1,
        ;
    }
}

/// A decimal numeral grows by a digit at its end where the number grows tenfold and by
/// that digit; a number below ten is its digit.
pub proof fn decimals_grow_by_digits(n: nat, d: nat)
    requires
        d < 10,
    ensures
        decimal(d) == seq![('0' as int + d) as char],
        n > 0 ==> decimal(10 * n + d) == decimal(n).push(('0' as int + d) as char),
{
    if n > 0 {
        assert((10 * n + d) / 10 == n && (10 * n + d) % 10 == d);
        assert(numeral(10 * n + d, 10) =~= numeral(n, 10).push(('0' as int + d) as char));
    }
}

/// A hexadecimal numeral grows by a digit at its end where the number grows sixteenfold
/// and by that digit; the digits from ten on are the small letters.
pub proof fn hexadecimals_grow_by_digits(n: nat, d: nat)
    requires
        d < 16,
    ensures
        ({
            let digit = if d < 10 {
                ('0' as int + d) as char
            } else {
                ('a' as int + d - 10) as char
            };
            &&& hexadecimal(d) == seq![digit]
            &&& n > 0 ==> hexadecimal(16 * n + d) == hexadecimal(n).push(digit)
        }),
{
    if n > 0 {
        assert((16 * n + d) / 16 == n && (16 * n + d) % 16 == d);
    }
}

} // verus!
