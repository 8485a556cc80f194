//! String helpers shared by the engine: equality, decimal rendering of the
//! fixed-point quantities, and escaping for metric labels and log lines.

use vstd::prelude::*;

verus! {

/// String equality decided through `String`, whose `==` vstd specifies.
pub fn str_eq(a: &str, b: &str) -> (r: bool)
    ensures
        r == (a@ == b@),
{
    let ax: String = a.to_owned();
    let bx: String = b.to_owned();
    ax == bx
}

/// Relies on `String::push`: appends the given character to the end of the
/// string, as its documentation states.
pub assume_specification[ String::push ](s: &mut String, ch: char)
    ensures
        final(s)@ == old(s)@ + seq![ch],
;

/// The decimal digit character for `d < 10`.
pub open spec fn digit_char(d: nat) -> char {
    if d == 0 {
        '0'
    } else if d == 1 {
        '1'
    } else if d == 2 {
        '2'
    } else if d == 3 {
        '3'
    } else if d == 4 {
        '4'
    } else if d == 5 {
        '5'
    } else if d == 6 {
        '6'
    } else if d == 7 {
        '7'
    } else if d == 8 {
        '8'
    } else {
        '9'
    }
}

/// The decimal digit string of `n`, without leading zeros (a single `'0'`
/// for zero).
pub open spec fn dec_digits(n: nat) -> Seq<char>
    decreases n,
{
    if n < 10 {
        seq![digit_char(n)]
    } else {
        dec_digits(n / 10).push(digit_char(n % 10))
    }
}

/// The last `width` decimal digits of `n`, zero-padded to `width` characters.
pub open spec fn dec_pad(n: nat, width: nat) -> Seq<char>
    decreases width,
{
    if width == 0 {
        Seq::empty()
    } else {
        dec_pad(n / 10, (width - 1) as nat).push(digit_char(n % 10))
    }
}

fn push_digit(s: &mut String, d: u64)
    requires
        d < 10,
    ensures
        final(s)@ == old(s)@ + seq![digit_char(d as nat)],
{
    if d == 0 {
        proof {
            reveal_strlit("0");
        }
        assert("0"@ =~= seq![digit_char(d as nat)]);
        s.append("0");
    } else if d == 1 {
        proof {
            reveal_strlit("1");
        }
        assert("1"@ =~= seq![digit_char(d as nat)]);
        s.append("1");
    } else if d == 2 {
        proof {
            reveal_strlit("2");
        }
        assert("2"@ =~= seq![digit_char(d as nat)]);
        s.append("2");
    } else if d == 3 {
        proof {
            reveal_strlit("3");
        }
        assert("3"@ =~= seq![digit_char(d as nat)]);
        s.append("3");
    } else if d == 4 {
        proof {
            reveal_strlit("4");
        }
        assert("4"@ =~= seq![digit_char(d as nat)]);
        s.append("4");
    } else if d == 5 {
        proof {
            reveal_strlit("5");
        }
        assert("5"@ =~= seq![digit_char(d as nat)]);
        s.append("5");
    } else if d == 6 {
        proof {
            reveal_strlit("6");
        }
        assert("6"@ =~= seq![digit_char(d as nat)]);
        s.append("6");
    } else if d == 7 {
        proof {
            reveal_strlit("7");
        }
        assert("7"@ =~= seq![digit_char(d as nat)]);
        s.append("7");
    } else if d == 8 {
        proof {
            reveal_strlit("8");
        }
        assert("8"@ =~= seq![digit_char(d as nat)]);
        s.append("8");
    } else {
        proof {
            reveal_strlit("9");
        }
        assert("9"@ =~= seq![digit_char(d as nat)]);
        s.append("9");
    }
}

/// Appends the decimal digits of `n` to `s`.
pub fn push_dec(s: &mut String, n: u64)
    ensures
        final(s)@ == old(s)@ + dec_digits(n as nat),
    decreases n,
{
    if n < 10 {
        push_digit(s, n);
    } else {
        push_dec(s, n / 10);
        push_digit(s, n % 10);
        assert(final(s)@ =~= old(s)@ + dec_digits(n as nat));
    }
}

/// Appends the last `width` decimal digits of `n` to `s`, zero-padded.
pub fn push_dec_pad(s: &mut String, n: u64, width: u64)
    ensures
        final(s)@ == old(s)@ + dec_pad(n as nat, width as nat),
    decreases width,
{
    if width == 0 {
        assert(final(s)@ =~= old(s)@ + dec_pad(n as nat, 0));
    } else {
        push_dec_pad(s, n / 10, width - 1);
        push_digit(s, n % 10);
        assert(final(s)@ =~= old(s)@ + dec_pad(n as nat, width as nat));
    }
}

/// The decimal string of `n`.
pub fn u64_to_string(n: u64) -> (s: String)
    ensures
        s@ == dec_digits(n as nat),
{
    let mut s: String = String::new();
    push_dec(&mut s, n);
    proof {
        assert(s@ =~= dec_digits(n as nat));
    }
    s
}

/// A quantity of `n` thousandths rendered with three decimal places.
pub open spec fn spec_fmt_milli(n: nat) -> Seq<char> {
    dec_digits(n / 1000) + seq!['.'] + dec_pad(n % 1000, 3)
}

/// Renders a fixed-point count of thousandths as `<int>.<three digits>`.
pub fn fmt_milli(n: u64) -> (s: String)
    ensures
        s@ == spec_fmt_milli(n as nat),
{
    let mut s: String = String::new();
    push_dec(&mut s, n / 1000);
    proof {
        reveal_strlit(".");
        assert("."@ =~= seq!['.']);
    }
    s.append(".");
    push_dec_pad(&mut s, n % 1000, 3);
    proof {
        assert(s@ =~= spec_fmt_milli(n as nat));
    }
    s
}

/// The hexadecimal digit character for `d < 16`, lower case.
pub open spec fn hex_char(d: nat) -> char {
    if d < 10 {
        digit_char(d)
    } else if d == 10 {
        'a'
    } else if d == 11 {
        'b'
    } else if d == 12 {
        'c'
    } else if d == 13 {
        'd'
    } else if d == 14 {
        'e'
    } else {
        'f'
    }
}

fn push_hex_digit(s: &mut String, d: u32)
    requires
        d < 16,
    ensures
        final(s)@ == old(s)@ + seq![hex_char(d as nat)],
{
    if d < 10 {
        push_digit(s, d as u64);
    } else if d == 10 {
        proof {
            reveal_strlit("a");
        }
        assert("a"@ =~= seq![hex_char(d as nat)]);
        s.append("a");
    } else if d == 11 {
        proof {
            reveal_strlit("b");
        }
        assert("b"@ =~= seq![hex_char(d as nat)]);
        s.append("b");
    } else if d == 12 {
        proof {
            reveal_strlit("c");
        }
        assert("c"@ =~= seq![hex_char(d as nat)]);
        s.append("c");
    } else if d == 13 {
        proof {
            reveal_strlit("d");
        }
        assert("d"@ =~= seq![hex_char(d as nat)]);
        s.append("d");
    } else if d == 14 {
        proof {
            reveal_strlit("e");
        }
        assert("e"@ =~= seq![hex_char(d as nat)]);
        s.append("e");
    } else {
        proof {
            reveal_strlit("f");
        }
        assert("f"@ =~= seq![hex_char(d as nat)]);
        s.append("f");
    }
}

/// How one character is written inside a metric label value: backslash and
/// double quote gain a backslash, everything else passes through.
pub open spec fn esc_label_char(c: char) -> Seq<char> {
    if c == '\\' {
        seq!['\\', '\\']
    } else if c == '"' {
        seq!['\\', '"']
    } else {
        seq![c]
    }
}

/// A label value with every character escaped per `esc_label_char`.
pub open spec fn label_escaped(s: Seq<char>) -> Seq<char>
    decreases s.len(),
{
    if s.len() == 0 {
        Seq::empty()
    } else {
        label_escaped(s.drop_last()) + esc_label_char(s.last())
    }
}

/// Escapes a metric label value: `\` becomes `\\` and `"` becomes `\"`.
pub fn escape_label(value: &str) -> (r: String)
    ensures
        r@ == label_escaped(value@),
{
    let n: usize = value.unicode_len();
    let mut out: String = String::new();
    let mut i: usize = 0;
    while i < n
        invariant
            n == value@.len(),
            i <= n,
            out@ == label_escaped(value@.take(i as int)),
        decreases n - i,
    {
        let c = value.get_char(i);
        proof {
            assert(value@.take(i + 1).drop_last() =~= value@.take(i as int));
            assert(value@.take(i + 1).last() == value@[i as int]);
        }
        if c == '\\' {
            proof {
                reveal_strlit("\\\\");
                assert("\\\\"@ =~= seq!['\\', '\\']);
            }
            out.append("\\\\");
        } else if c == '"' {
            proof {
                reveal_strlit("\\\"");
                assert("\\\""@ =~= seq!['\\', '"']);
            }
            out.append("\\\"");
        } else {
            out.push(c);
        }
        i = i + 1;
    }
    proof {
        assert(value@.take(n as int) =~= value@);
    }
    out
}

/// How one character is written inside a JSON string literal: backslash and
/// double quote gain a backslash, control characters become `\u00XX`, and
/// everything else passes through.
pub open spec fn esc_json_char(c: char) -> Seq<char> {
    if c == '\\' {
        seq!['\\', '\\']
    } else if c == '"' {
        seq!['\\', '"']
    } else if (c as u32) < 32 {
        seq!['\\', 'u', '0', '0', digit_char((c as u32 / 16) as nat), hex_char((c as u32 % 16) as nat)]
    } else {
        seq![c]
    }
}

/// A JSON string body with every character escaped per `esc_json_char`.
pub open spec fn json_escaped(s: Seq<char>) -> Seq<char>
    decreases s.len(),
{
    if s.len() == 0 {
        Seq::empty()
    } else {
        json_escaped(s.drop_last()) + esc_json_char(s.last())
    }
}

/// Appends the body of a JSON string literal (no surrounding quotes).
pub fn push_json_escaped(out: &mut String, value: &str)
    ensures
        final(out)@ == old(out)@ + json_escaped(value@),
{
    let n: usize = value.unicode_len();
    let mut i: usize = 0;
    while i < n
        invariant
            n == value@.len(),
            i <= n,
            out@ == old(out)@ + json_escaped(value@.take(i as int)),
        decreases n - i,
    {
        let c = value.get_char(i);
        proof {
            assert(value@.take(i + 1).drop_last() =~= value@.take(i as int));
            assert(value@.take(i + 1).last() == value@[i as int]);
        }
        if c == '\\' {
            proof {
                reveal_strlit("\\\\");
                assert("\\\\"@ =~= seq!['\\', '\\']);
            }
            out.append("\\\\");
        } else if c == '"' {
            proof {
                reveal_strlit("\\\"");
                assert("\\\""@ =~= seq!['\\', '"']);
            }
            out.append("\\\"");
        } else if (c as u32) < 32 {
            proof {
                reveal_strlit("\\u00");
                assert("\\u00"@ =~= seq!['\\', 'u', '0', '0']);
            }
            out.append("\\u00");
            push_digit(out, (c as u32 / 16) as u64);
            push_hex_digit(out, c as u32 % 16);
        } else {
            out.push(c);
        }
        proof {
            assert(out@ =~= old(out)@ + json_escaped(value@.take(i + 1)));
        }
        i = i + 1;
    }
    proof {
        assert(value@.take(n as int) =~= value@);
    }
}

/// A quantity of `n` thousandths rendered with six decimal places.
pub open spec fn spec_fmt_milli6(n: nat) -> Seq<char> {
    dec_digits(n / 1000) + seq!['.'] + dec_pad((n % 1000) * 1000, 6)
}

/// Renders a fixed-point count of thousandths as `<int>.<six digits>`.
pub fn fmt_milli6(n: u64) -> (s: String)
    ensures
        s@ == spec_fmt_milli6(n as nat),
{
    let mut s: String = String::new();
    push_dec(&mut s, n / 1000);
    proof {
        reveal_strlit(".");
        assert("."@ =~= seq!['.']);
    }
    s.append(".");
    push_dec_pad(&mut s, (n % 1000) * 1000, 6);
    proof {
        assert(s@ =~= spec_fmt_milli6(n as nat));
    }
    s
}

/// A count of nanograms rendered in grams with eight decimal places.
pub open spec fn spec_fmt_nano8(n: nat) -> Seq<char> {
    dec_digits(n / 1000000000) + seq!['.'] + dec_pad((n % 1000000000) / 10, 8)
}

/// Renders a count of nanograms as grams, `<int>.<eight digits>`.
pub fn fmt_nano8(n: u64) -> (s: String)
    ensures
        s@ == spec_fmt_nano8(n as nat),
{
    let mut s: String = String::new();
    push_dec(&mut s, n / 1000000000);
    proof {
        reveal_strlit(".");
        assert("."@ =~= seq!['.']);
    }
    s.append(".");
    push_dec_pad(&mut s, (n % 1000000000) / 10, 8);
    proof {
        assert(s@ =~= spec_fmt_nano8(n as nat));
    }
    s
}

/// A count of microjoules rendered in joules with eight decimal places.
pub open spec fn spec_fmt_micro8(n: nat) -> Seq<char> {
    dec_digits(n / 1000000) + seq!['.'] + dec_pad((n % 1000000) * 100, 8)
}

/// Renders a count of microjoules as joules, `<int>.<eight digits>`.
pub fn fmt_micro8(n: u64) -> (s: String)
    ensures
        s@ == spec_fmt_micro8(n as nat),
{
    let mut s: String = String::new();
    push_dec(&mut s, n / 1000000);
    proof {
        reveal_strlit(".");
        assert("."@ =~= seq!['.']);
    }
    s.append(".");
    push_dec_pad(&mut s, (n % 1000000) * 100, 8);
    proof {
        assert(s@ =~= spec_fmt_micro8(n as nat));
    }
    s
}

/// Whether `s` begins with `prefix`, decided character by character.
pub fn str_starts_with(s: &str, prefix: &str) -> (r: bool)
    ensures
        r == (prefix@.len() <= s@.len() && s@.take(prefix@.len() as int) == prefix@),
{
    let n: usize = prefix.unicode_len();
    let m: usize = s.unicode_len();
    if n > m {
        return false;
    }
    let mut i: usize = 0;
    while i < n
        invariant
            n == prefix@.len(),
            m == s@.len(),
            n <= m,
            i <= n,
            forall|j: int| 0 <= j < i ==> s@[j] == prefix@[j],
        decreases n - i,
    {
        if s.get_char(i) != prefix.get_char(i) {
            proof {
                assert(s@.take(n as int)[i as int] != prefix@[i as int]);
            }
            return false;
        }
        i = i + 1;
    }
    proof {
        assert(s@.take(n as int) =~= prefix@);
    }
    true
}

/// `s` with every trailing `'/'` removed.
pub open spec fn trim_slashes(s: Seq<char>) -> Seq<char>
    decreases s.len(),
{
    if s.len() > 0 && s.last() == '/' {
        trim_slashes(s.drop_last())
    } else {
        s
    }
}

/// Removes every trailing `'/'` from `s`.
pub fn trim_trailing_slashes(s: &str) -> (r: &str)
    ensures
        r@ == trim_slashes(s@),
{
    let n: usize = s.unicode_len();
    let mut k: usize = n;
    proof {
        assert(s@.take(n as int) =~= s@);
    }
    while k > 0 && s.get_char(k - 1) == '/'
        invariant
            n == s@.len(),
            k <= n,
            trim_slashes(s@) == trim_slashes(s@.take(k as int)),
        decreases k,
    {
        proof {
            assert(s@.take(k as int).drop_last() =~= s@.take(k - 1));
            assert(s@.take(k as int).last() == s@[k - 1]);
        }
        k = k - 1;
    }
    proof {
        if k > 0 {
            assert(s@.take(k as int).last() == s@[k - 1]);
        }
        assert(trim_slashes(s@.take(k as int)) == s@.take(k as int));
    }
    let r = s.substring_char(0, k);
    proof {
        assert(r@ =~= s@.take(k as int));
    }
    r
}

} // verus!
