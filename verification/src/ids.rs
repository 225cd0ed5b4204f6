//! User and group ids, as `id` prints them.
use crate::text::{all_digits, chars_of, decimal, value_of};
use vstd::prelude::*;
use vstd::utf8::{
    decode_utf8, encode_utf8, encode_utf8_decode_utf8, encode_utf8_valid_utf8, valid_utf8,
};

verus! {

/// `std::string::FromUtf8Error`, carried unseen.
#[verifier::external_type_specification]
#[verifier::external_body]
pub struct ExFromUtf8Error(std::string::FromUtf8Error);

/// `String::from_utf8` succeeds on valid UTF-8 and on nothing else, and gives the
/// text that the bytes encode.
pub assume_specification[ String::from_utf8 ](vec: Vec<u8>) -> (r: Result<
    String,
    std::string::FromUtf8Error,
>)
    ensures
        r is Ok <==> valid_utf8(vec@),
        r matches Ok(s) ==> s@ == decode_utf8(vec@),
;

/// Why an output holds no id.
#[derive(Debug, Clone, Copy, PartialEq, Eq, Structural)]
pub enum IdError {
    NotUtf8,
    Empty,
    InvalidDigit,
    TooLarge,
}

/// Whether `c` is white space.
pub open spec fn white(c: char) -> bool {
    let n = c as int;
    ||| 0x09 <= n <= 0x0d
    ||| n == 0x20
    ||| n == 0x85
    ||| n == 0xa0
    ||| n == 0x1680
    ||| 0x2000 <= n <= 0x200a
    ||| n == 0x2028
    ||| n == 0x2029
    ||| n == 0x202f
    ||| n == 0x205f
    ||| n == 0x3000
}

/// `s` without the white space it starts with.
pub open spec fn trim_start(s: Seq<char>) -> Seq<char>
    decreases s.len(),
{
    if s.len() > 0 && white(s[0]) {
        trim_start(s.drop_first())
    } else {
        s
    }
}

/// `s` without the white space it ends with.
pub open spec fn trim_end(s: Seq<char>) -> Seq<char>
    decreases s.len(),
{
    if s.len() > 0 && white(s.last()) {
        trim_end(s.drop_last())
    } else {
        s
    }
}

/// Whether `c` is a decimal digit.
pub open spec fn is_digit(c: char) -> bool {
    '0' <= c <= '9'
}

/// The number with the digits `s`, read from the left; the first thing in the way
/// of reading on is the error.
pub open spec fn number(s: Seq<char>) -> Result<u32, IdError>
    decreases s.len(),
{
    if s.len() == 0 {
        Ok(0)
    } else {
        match number(s.drop_last()) {
            Err(e) => Err(e),
            Ok(n) => if !is_digit(s.last()) {
                Err(IdError::InvalidDigit)
            } else if n * 10 + (s.last() as int - '0' as int) > u32::MAX {
                Err(IdError::TooLarge)
            } else {
                Ok((n * 10 + (s.last() as int - '0' as int)) as u32)
            },
        }
    }
}

/// The number that `s` is: digits, with or without a plus before them.
pub open spec fn signed_number(s: Seq<char>) -> Result<u32, IdError> {
    if s.len() == 0 {
        Err(IdError::Empty)
    } else if s.len() > 1 && s[0] == '+' {
        number(s.drop_first())
    } else {
        number(s)
    }
}

/// The id in `output`.
pub open spec fn id_in(output: Seq<u8>) -> Result<u32, IdError> {
    if valid_utf8(output) {
        signed_number(trim_end(trim_start(decode_utf8(output))))
    } else {
        Err(IdError::NotUtf8)
    }
}

fn is_white(c: char) -> (b: bool)
    ensures
        b == white(c),
{
    let n = c as u32;
    (0x09 <= n && n <= 0x0d) || n == 0x20 || n == 0x85 || n == 0xa0 || n == 0x1680 || (0x2000 <= n
        && n <= 0x200a) || n == 0x2028 || n == 0x2029 || n == 0x202f || n == 0x205f || n == 0x3000
}

fn read_number(s: &Vec<char>, from: usize, to: usize) -> (r: Result<u32, IdError>)
    requires
        from <= to <= s.len(),
    ensures
        r == number(s@.subrange(from as int, to as int)),
{
    let ghost all = s@.subrange(from as int, to as int);
    let mut n: u32 = 0;
    let mut i: usize = from;
    assert(all.take(0) =~= Seq::<char>::empty());
    while i < to
        invariant
            from <= i <= to <= s.len(),
            all == s@.subrange(from as int, to as int),
            number(all.take(i - from)) == Ok::<u32, IdError>(n),
        decreases to - i,
    {
        let c = s[i];
        let ghost next = all.take(i - from + 1);
        proof {
            assert(next.drop_last() =~= all.take(i - from));
            assert(next.last() == c);
        }
        if c < '0' || '9' < c {
            proof {
                lemma_number_error(all, i - from + 1);
            }
            return Err(IdError::InvalidDigit);
        }
        let d: u32 = c as u32 - '0' as u32;
        let wide: u64 = n as u64 * 10 + d as u64;
        if wide > u32::MAX as u64 {
            proof {
                lemma_number_error(all, i - from + 1);
            }
            return Err(IdError::TooLarge);
        }
        n = wide as u32;
        i += 1;
    }
    assert(all.take(to - from) =~= all);
    Ok(n)
}

/// What stands in the way in a part stands in the way in the whole.
proof fn lemma_number_error(s: Seq<char>, k: int)
    requires
        0 <= k <= s.len(),
        number(s.take(k)) is Err,
    ensures
        number(s) == number(s.take(k)),
    decreases s.len(),
{
    if k < s.len() {
        assert(s.drop_last().take(k) =~= s.take(k));
        lemma_number_error(s.drop_last(), k);
    } else {
        assert(s.take(k) =~= s);
    }
}

/// The id that `output` holds: a number, white space around it aside.
pub fn parse_id(output: Vec<u8>) -> (r: Result<u32, IdError>)
    ensures
        r == id_in(output@),
{
    let text = match String::from_utf8(output) {
        Ok(text) => text,
        Err(_) => {
            return Err(IdError::NotUtf8);
        },
    };
    let s = chars_of(text.as_str());
    let mut from: usize = 0;
    assert(s@.skip(0) =~= s@);
    while from < s.len() && is_white(s[from])
        invariant
            from <= s.len(),
            trim_start(s@) == trim_start(s@.skip(from as int)),
        decreases s.len() - from,
    {
        assert(s@.skip(from as int).drop_first() =~= s@.skip(from + 1));
        from += 1;
    }
    let ghost rest = s@.skip(from as int);
    let mut to: usize = s.len();
    assert(s@.subrange(from as int, to as int) =~= rest);
    while from < to && is_white(s[to - 1])
        invariant
            from <= to <= s.len(),
            trim_end(rest) == trim_end(s@.subrange(from as int, to as int)),
        decreases to,
    {
        assert(s@.subrange(from as int, to as int).drop_last() =~= s@.subrange(
            from as int,
            to - 1,
        ));
        to -= 1;
    }
    let ghost trimmed = s@.subrange(from as int, to as int);
    if from == to {
        Err(IdError::Empty)
    } else if to - from > 1 && s[from] == '+' {
        assert(trimmed.drop_first() =~= s@.subrange(from + 1, to as int));
        read_number(&s, from + 1, to)
    } else {
        read_number(&s, from, to)
    }
}

proof fn lemma_decimal(n: nat)
    ensures
        decimal(n).len() > 0,
        forall|i: int| 0 <= i < decimal(n).len() ==> is_digit(#[trigger] decimal(n)[i]),
        n <= u32::MAX ==> number(decimal(n)) == Ok::<u32, IdError>(n as u32),
    decreases n,
{
    reveal_with_fuel(number, 2);
    if n < 10 {
        assert(decimal(n).drop_last() =~= Seq::<char>::empty());
    } else {
        lemma_decimal(n / 10);
        assert(decimal(n).drop_last() =~= decimal(n / 10));
    }
}

/// The id that is printed is the id that is read: in decimal, with a line end or
/// without.
pub proof fn law_printed_id_is_read(n: u32)
    ensures
        id_in(encode_utf8(decimal(n as nat))) == Ok::<u32, IdError>(n),
        id_in(encode_utf8(decimal(n as nat).push('\n'))) == Ok::<u32, IdError>(n),
{
    let d = decimal(n as nat);
    lemma_decimal(n as nat);
    encode_utf8_valid_utf8(d);
    encode_utf8_decode_utf8(d);
    encode_utf8_valid_utf8(d.push('\n'));
    encode_utf8_decode_utf8(d.push('\n'));
    assert(is_digit(d[0]));
    assert(is_digit(d[d.len() - 1]));
    assert(d.push('\n').drop_last() =~= d);
    reveal_with_fuel(trim_end, 2);
}

/// White space is these characters and no others.
pub proof fn law_white(c: char)
    ensures
        white(c) <==> set![
            0x09int, 0x0a, 0x0b, 0x0c, 0x0d, 0x20, 0x85, 0xa0, 0x1680, 0x2000, 0x2001, 0x2002,
            0x2003, 0x2004, 0x2005, 0x2006, 0x2007, 0x2008, 0x2009, 0x200a, 0x2028, 0x2029, 0x202f,
            0x205f, 0x3000,
        ].contains(c as int),
{
}

/// `s` is white space.
pub open spec fn all_white(s: Seq<char>) -> bool {
    forall|i: int| 0 <= i < s.len() ==> white(#[trigger] s[i])
}

/// `s` has no white space around it.
pub open spec fn bare(s: Seq<char>) -> bool {
    s.len() > 0 ==> !white(s[0]) && !white(s.last())
}

proof fn lemma_trim_end(t: Seq<char>, b: Seq<char>)
    requires
        t.len() > 0 ==> !white(t.last()),
        all_white(b),
    ensures
        trim_end(t + b) == t,
    decreases b.len(),
{
    if b.len() == 0 {
        assert(t + b =~= t);
    } else {
        let c = b.drop_last();
        assert forall|i: int| 0 <= i < c.len() implies white(#[trigger] c[i]) by {
            assert(c[i] == b[i]);
        }
        assert(white(b[b.len() - 1]));
        assert((t + b).drop_last() =~= t + c);
        lemma_trim_end(t, c);
    }
}

proof fn lemma_trim_start(a: Seq<char>, t: Seq<char>)
    requires
        t.len() > 0 ==> !white(t[0]),
        all_white(a),
    ensures
        trim_start(a + t) == t,
    decreases a.len(),
{
    if a.len() == 0 {
        assert(a + t =~= t);
    } else {
        let c = a.drop_first();
        assert forall|i: int| 0 <= i < c.len() implies white(#[trigger] c[i]) by {
            assert(c[i] == a[i + 1]);
        }
        assert(white(a[0]));
        assert((a + t).drop_first() =~= c + t);
        lemma_trim_start(c, t);
    }
}

/// White space around a text goes, and nothing else: of `t` between white space, `t`
/// is left, and of white space alone, nothing.
pub proof fn law_trim(a: Seq<char>, t: Seq<char>, b: Seq<char>)
    requires
        all_white(a),
        all_white(b),
        bare(t),
    ensures
        trim_end(trim_start(a + t + b)) == t,
{
    if t.len() > 0 {
        assert(a + t + b =~= a + (t + b));
        assert((t + b)[0] == t[0]);
        lemma_trim_start(a, t + b);
        lemma_trim_end(t, b);
    } else {
        let s = a + t + b;
        assert forall|i: int| 0 <= i < s.len() implies white(#[trigger] s[i]) by {
            if i < a.len() {
                assert(s[i] == a[i]);
            } else {
                assert(s[i] == b[i - a.len()]);
            }
        }
        assert(s + t =~= s);
        assert(t =~= Seq::<char>::empty());
        lemma_trim_start(s, t);
        assert(t + t =~= t);
    }
}

proof fn lemma_value_grows(s: Seq<char>, k: int)
    requires
        all_digits(s),
        0 <= k <= s.len(),
    ensures
        0 <= value_of(s.take(k)) <= value_of(s),
    decreases s.len(),
{
    if k == s.len() {
        assert(s.take(k) =~= s);
        if s.len() > 0 {
            let t = s.drop_last();
            assert forall|i: int| 0 <= i < t.len() implies '0' <= #[trigger] t[i] <= '9' by {
                assert(t[i] == s[i]);
            }
            lemma_value_grows(t, t.len() as int);
            assert(t.take(t.len() as int) =~= t);
            assert('0' <= s[s.len() - 1] <= '9');
        }
    } else {
        let t = s.drop_last();
        assert forall|i: int| 0 <= i < t.len() implies '0' <= #[trigger] t[i] <= '9' by {
            assert(t[i] == s[i]);
        }
        lemma_value_grows(t, k);
        assert(t.take(k) =~= s.take(k));
        assert('0' <= s[s.len() - 1] <= '9');
    }
}

/// A number is read just if it is made of digits and is not too large, and it is then
/// what the digits stand for.
pub proof fn law_number(s: Seq<char>)
    ensures
        number(s) is Ok <==> all_digits(s) && value_of(s) <= u32::MAX,
        number(s) matches Ok(n) ==> n == value_of(s),
    decreases s.len(),
{
    if s.len() > 0 {
        let t = s.drop_last();
        law_number(t);
        let c = s[s.len() - 1];
        if all_digits(s) {
            lemma_value_grows(s, t.len() as int);
            assert(s.take(t.len() as int) =~= t);
            assert forall|i: int| 0 <= i < t.len() implies '0' <= #[trigger] t[i] <= '9' by {
                assert(t[i] == s[i]);
            }
            assert('0' <= c <= '9');
        } else if all_digits(t) && '0' <= c <= '9' {
            assert forall|i: int| 0 <= i < s.len() implies '0' <= #[trigger] s[i] <= '9' by {
                if i < t.len() {
                    assert(s[i] == t[i]);
                }
            }
        }
    }
}

/// What stands in the way of reading a number is the first thing that does: what is no
/// digit, after digits that are not too large, or the digit that makes it too large.
pub proof fn law_number_refused(s: Seq<char>)
    ensures
        number(s) matches Err(e) ==> exists|i: int|
            {
                &&& 0 <= i < s.len()
                &&& #[trigger] all_digits(s.take(i))
                &&& value_of(s.take(i)) <= u32::MAX
                &&& if '0' <= s[i] <= '9' {
                    e == IdError::TooLarge && value_of(s.take(i + 1)) > u32::MAX
                } else {
                    e == IdError::InvalidDigit
                }
            },
    decreases s.len(),
{
    if s.len() > 0 && number(s) is Err {
        let t = s.drop_last();
        let k = t.len() as int;
        if number(t) is Err {
            law_number_refused(t);
            let e = number(t)->Err_0;
            let i = choose|i: int|
                {
                    &&& 0 <= i < t.len()
                    &&& #[trigger] all_digits(t.take(i))
                    &&& value_of(t.take(i)) <= u32::MAX
                    &&& if '0' <= t[i] <= '9' {
                        e == IdError::TooLarge && value_of(t.take(i + 1)) > u32::MAX
                    } else {
                        e == IdError::InvalidDigit
                    }
                };
            assert(t.take(i) =~= s.take(i));
            assert(t.take(i + 1) =~= s.take(i + 1));
            assert(all_digits(s.take(i)));
        } else {
            law_number(t);
            assert(s.take(k) =~= t);
            assert(s.take(k + 1) =~= s);
            assert(all_digits(s.take(k)));
        }
    }
}

/// An id is had from an output just if that is text, of digits that are not too large,
/// with or without a plus before them and white space around them.
pub proof fn law_id(output: Seq<u8>, a: Seq<char>, t: Seq<char>, b: Seq<char>)
    requires
        valid_utf8(output) ==> decode_utf8(output) == a + t + b,
        all_white(a),
        all_white(b),
        bare(t),
    ensures
        id_in(output) == Err::<u32, IdError>(IdError::NotUtf8) <==> !valid_utf8(output),
        valid_utf8(output) ==> {
            let digits = if t.len() > 1 && t[0] == '+' {
                t.drop_first()
            } else {
                t
            };
            &&& id_in(output) == Err::<u32, IdError>(IdError::Empty) <==> t.len() == 0
            &&& id_in(output) is Ok <==> t.len() > 0 && all_digits(digits) && value_of(digits)
                <= u32::MAX
            &&& id_in(output) matches Ok(n) ==> n == value_of(digits)
            &&& t.len() > 0 ==> id_in(output) == number(digits)
        },
{
    law_trim(a, t, b);
    let digits = if t.len() > 1 && t[0] == '+' {
        t.drop_first()
    } else {
        t
    };
    law_number(digits);
    law_number_refused(digits);
}

/// What is read from an output is the id in it.
pub proof fn law_parse_id(output: Vec<u8>, r: Result<u32, IdError>)
    requires
        call_ensures(parse_id, (output,), r),
    ensures
        r == id_in(output@),
{
}

} // verus!
