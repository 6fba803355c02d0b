use vstd::prelude::*;
use vstd::string::StringExecFns;
use vstd::string::StringSliceAdditionalSpecFns;

verus! {

/// The decimal digit character for `d`.
pub open spec fn spec_digit_char(d: int) -> char
    recommends
        0 <= d < 10,
{
    if d == 0 {
        '0'
    } else if d == 1 {
        '1'
    } else if d == 2 {
        '2'
    } else if d == 3 {
        '3'
    } else if d == 4 {
        '4'
    } else if d == 5 {
        '5'
    } else if d == 6 {
        '6'
    } else if d == 7 {
        '7'
    } else if d == 8 {
        '8'
    } else {
        '9'
    }
}

/// The decimal digits of `n`, most significant first, without leading
/// zeros (a single zero for zero).
pub open spec fn spec_decimal(n: int) -> Seq<char>
    recommends
        n >= 0,
    decreases n,
{
    if n < 10 {
        seq![spec_digit_char(n)]
    } else {
        spec_decimal(n / 10).push(spec_digit_char(n % 10))
    }
}

/// The one-character string of a decimal digit.
fn digit_str(d: usize) -> (r: &'static str)
    requires
        d < 10,
    ensures
        r@ == seq![spec_digit_char(d as int)],
{
    let r: &'static str = if d == 0 {
        "0"
    } else if d == 1 {
        "1"
    } else if d == 2 {
        "2"
    } else if d == 3 {
        "3"
    } else if d == 4 {
        "4"
    } else if d == 5 {
        "5"
    } else if d == 6 {
        "6"
    } else if d == 7 {
        "7"
    } else if d == 8 {
        "8"
    } else {
        "9"
    };
    proof {
        reveal_strlit("0");
        reveal_strlit("1");
        reveal_strlit("2");
        reveal_strlit("3");
        reveal_strlit("4");
        reveal_strlit("5");
        reveal_strlit("6");
        reveal_strlit("7");
        reveal_strlit("8");
        reveal_strlit("9");
        assert(r@ =~= seq![spec_digit_char(d as int)]);
    }
    r
}

/// Appends the decimal digits of `x` to `out`.
fn push_decimal(out: &mut String, x: usize)
    ensures
        final(out)@ == old(out)@ + spec_decimal(x as int),
    decreases x,
{
    let ghost mid = out@;
    if x >= 10 {
        push_decimal(out, x / 10);
        proof {
            assert(out@ == mid + spec_decimal(x as int / 10));
        }
    }
    let d: &'static str = digit_str(x % 10);
    out.append(d);
    proof {
        if x < 10 {
            assert(spec_decimal(x as int) == seq![spec_digit_char(x as int)]);
            assert(x as int % 10 == x as int);
        } else {
            assert(spec_decimal(x as int) == spec_decimal(x as int / 10).push(
                spec_digit_char(x as int % 10),
            ));
            assert((mid + spec_decimal(x as int / 10)) + seq![spec_digit_char(x as int % 10)]
                =~= mid + spec_decimal(x as int));
        }
    }
}

/// The seed names `test1` through `testn`, used to populate the backing
/// store before exercising the filter.
pub fn prepare_test_data(n: usize) -> (r: Vec<String>)
    ensures
        r@.len() == n,
        forall|i: int| 0 <= i < n ==> r@[i]@ == "test"@ + spec_decimal(i + 1),
{
    let mut r: Vec<String> = Vec::new();
    let mut i: usize = 0;
    while i < n
        invariant
            i <= n,
            r@.len() == i,
            forall|j: int| 0 <= j < i ==> r@[j]@ == "test"@ + spec_decimal(j + 1),
        decreases n - i,
    {
        let mut s: String = String::from_str("test");
        push_decimal(&mut s, i + 1);
        r.push(s);
        i = i + 1;
    }
    r
}

} // verus!
