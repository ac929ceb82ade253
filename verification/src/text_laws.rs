//! Numbers and fields as they are written.
use vstd::prelude::*;

use crate::text::decimal;
use crate::text::digits_value;
use crate::text::fields;
use crate::text::lemma_decimal;
use crate::text::lemma_fields_append;
use crate::text::lemma_fields_single;
use crate::text::parsed_usize;

verus! {

/// The text consists of decimal digits, at least one.
pub open spec fn is_digits(s: Seq<char>) -> bool {
    &&& s.len() > 0
    &&& forall|i: int| 0 <= i < s.len() ==> '0' <= #[trigger] s[i] && s[i] <= '9'
}

/// The number that decimal digits stand for.
pub open spec fn number_of(s: Seq<char>) -> int
    decreases s.len(),
{
    if s.len() == 0 {
        0
    } else {
        10 * number_of(s.drop_last()) + (s.last() as u32 - '0' as u32)
    }
}

/// The text is a number: digits, after a plus sign or without, that stand for `n`.
pub open spec fn is_number(s: Seq<char>, n: int) -> bool {
    ||| is_digits(s) && number_of(s) == n
    ||| s.len() > 0 && s[0] == '+' && is_digits(s.skip(1)) && number_of(s.skip(1)) == n
}

/// A number is written in digits, without needless zeros, that stand for it.
pub proof fn law_numbers_are_written_in_digits(n: nat)
    ensures
        is_digits(decimal(n)),
        number_of(decimal(n)) == n,
        decimal(n).len() > 1 ==> decimal(n)[0] != '0',
    decreases n,
{
    lemma_decimal(n);
    lemma_number_of(decimal(n));
    if n >= 10 {
        let rest = decimal(n / 10);
        law_numbers_are_written_in_digits(n / 10);
        assert(decimal(n).drop_last() =~= rest);
        assert(decimal(n)[0] == rest[0]);
        if rest.len() == 1 {
            reveal_with_fuel(number_of, 2);
            assert(rest.drop_last() =~= Seq::empty());
            assert(number_of(rest) == rest[0] as u32 - '0' as u32);
        }
    }
}

/// A text is read as a number exactly if it is one that a machine word can hold.
pub proof fn law_numbers_are_read_as_written(s: Seq<char>, n: usize)
    ensures
        parsed_usize(s) == Some(n) <==> is_number(s, n as int),
{
    lemma_number_of(s);
    lemma_number_of(s.skip(1));
    if is_digits(s) {
        lemma_not_negative(s);
    }
    if s.len() > 0 && is_digits(s.skip(1)) {
        lemma_not_negative(s.skip(1));
    }
    if s.len() > 0 && s[0] == '+' {
        assert(!is_digits(s));
    }
}

proof fn lemma_not_negative(s: Seq<char>)
    requires
        forall|i: int| 0 <= i < s.len() ==> '0' <= #[trigger] s[i] && s[i] <= '9',
    ensures
        number_of(s) >= 0,
    decreases s.len(),
{
    if s.len() > 0 {
        let rest = s.drop_last();
        assert forall|i: int| 0 <= i < rest.len() implies '0' <= #[trigger] rest[i] && rest[i]
            <= '9' by {
            assert(rest[i] == s[i]);
        }
        lemma_not_negative(rest);
        assert('0' <= s[s.len() - 1]);
    }
}

proof fn lemma_number_of(s: Seq<char>)
    ensures
        number_of(s) == digits_value(s),
    decreases s.len(),
{
    if s.len() > 0 {
        lemma_number_of(s.drop_last());
    }
}

/// Texts one after the other, with a space between any two.
pub open spec fn spaced(parts: Seq<Seq<char>>) -> Seq<char>
    decreases parts.len(),
{
    if parts.len() == 0 {
        Seq::empty()
    } else if parts.len() == 1 {
        parts[0]
    } else {
        spaced(parts.drop_last()).push(' ') + parts.last()
    }
}

/// There is at least one text, and none of them has a space in it.
pub open spec fn are_fields(parts: Seq<Seq<char>>) -> bool {
    &&& parts.len() > 0
    &&& forall|i: int| 0 <= i < parts.len() ==> !(#[trigger] parts[i]).contains(' ')
}

/// Texts without spaces, written with a space between any two, are the fields of the whole.
pub proof fn law_fields_are_what_spaces_separate(parts: Seq<Seq<char>>)
    requires
        are_fields(parts),
    ensures
        fields(spaced(parts)) == parts,
    decreases parts.len(),
{
    if parts.len() == 1 {
        lemma_fields_single(parts[0]);
        assert(parts =~= seq![parts[0]]);
    } else {
        let rest = parts.drop_last();
        assert forall|i: int| 0 <= i < rest.len() implies !(#[trigger] rest[i]).contains(' ') by {
            assert(rest[i] == parts[i]);
        }
        law_fields_are_what_spaces_separate(rest);
        assert(parts[parts.len() - 1] == parts.last());
        lemma_fields_append(spaced(rest), parts.last());
        assert(rest.push(parts.last()) =~= parts);
    }
}

/// Every text is the row of its fields.
pub proof fn law_fields_make_up_the_text(s: Seq<char>)
    ensures
        are_fields(fields(s)),
        spaced(fields(s)) == s,
    decreases s.len(),
{
    if s.len() > 0 {
        let before = fields(s.drop_last());
        law_fields_make_up_the_text(s.drop_last());
        if s.last() == ' ' {
            assert(fields(s).drop_last() =~= before);
            assert(spaced(fields(s)) =~= s);
        } else {
            let grown = before.last().push(s.last());
            assert forall|k: int| 0 <= k < grown.len() implies grown[k] != ' ' by {
                if k < before.last().len() {
                    assert(!before[before.len() - 1].contains(' '));
                    assert(before.last().contains(before.last()[k]));
                }
            }
            assert forall|i: int| 0 <= i < fields(s).len() implies !(
            #[trigger] fields(s)[i]).contains(' ') by {
                if i < before.len() - 1 {
                    assert(fields(s)[i] == before[i]);
                }
            }
            assert(fields(s).drop_last() =~= before.drop_last());
            assert(s =~= s.drop_last().push(s.last()));
            assert(spaced(fields(s)) =~= spaced(before).push(s.last()));
        }
    }
}

} // verus!
