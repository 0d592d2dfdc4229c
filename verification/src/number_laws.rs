//! What holds of numbers as text and as bytes, and of the codes and names that stand
//! for them.

use crate::bench::{
    digits_value, number_digits, option_text, option_value, parse_usize, parsed_usize,
};
use crate::edit::zip_encryption_method_supported;
use crate::errors::{
    error_string, err_str, zip_error_get_sys_type, zip_error_to_str,
};
use crate::le::{push_le16, push_le32, push_le64};
use crate::metadata::zip_compression_method_supported;
use crate::text::{
    append_decimal, append_hex, append_signed, decimal, digit_char, hex, hex_bytes, hex_of_bytes,
};
use vstd::prelude::*;
use vstd::string::*;
use vstd::utf8::*;

verus! {

/// The number that a digit stands for, in either base.
pub open spec fn digit_of(c: char) -> int {
    if 'a' <= c { c as u32 - 'a' as u32 + 10 } else { c as u32 - '0' as u32 }
}

/// The number that digits stand for in a base, the most significant first.
pub open spec fn number_of(text: Seq<char>, base: int) -> int
    decreases text.len(),
{
    if text.len() == 0 {
        0
    } else {
        number_of(text.drop_last(), base) * base + digit_of(text.last())
    }
}

/// Whether a text is made of decimal digits.
pub open spec fn all_decimal(text: Seq<char>) -> bool {
    forall|i: int| 0 <= i < text.len() ==> '0' <= #[trigger] text[i] && text[i] <= '9'
}

/// The decimal text of a number stands for it.
pub proof fn lemma_decimal(n: nat)
    ensures
        number_of(decimal(n), 10) == n,
        all_decimal(decimal(n)),
        decimal(n).len() > 0,
        n > 0 ==> decimal(n)[0] != '0',
    decreases n,
{
    if n < 10 {
        assert(decimal(n).drop_last() =~= Seq::empty());
        assert(number_of(Seq::empty(), 10) == 0);
    } else {
        lemma_decimal(n / 10);
        let before = decimal(n / 10);
        let last = digit_char((n % 10) as int);
        assert(before.push(last).drop_last() =~= before);
        assert forall|i: int| 0 <= i < decimal(n).len() implies '0' <= #[trigger] decimal(n)[i]
            && decimal(n)[i] <= '9' by {
            if i < before.len() {
                assert(decimal(n)[i] == before[i]);
            }
        }
        assert(decimal(n)[0] == before[0]);
    }
}

/// The text of a number is appended: its decimal digits without leading zeros, which
/// stand for it.
pub proof fn law_decimal_text(text: (String, String), n: u64)
    requires
        exists|s: &mut String| #[trigger]
            call_ensures(append_decimal, (s, n), ()) && (*s, *final(s)) == text,
    ensures
        ({
            let digits = text.1@.skip(text.0@.len() as int);
            &&& text.1@.len() > text.0@.len()
            &&& text.1@.take(text.0@.len() as int) == text.0@
            &&& all_decimal(digits)
            &&& number_of(digits, 10) == n
            &&& n > 0 ==> digits[0] != '0'
            &&& n == 0 ==> digits.len() == 1
        }),
{
    lemma_decimal(n as nat);
    let d = decimal(n as nat);
    assert(text.1@.skip(text.0@.len() as int) =~= d);
    assert(text.1@.take(text.0@.len() as int) =~= text.0@);
}

/// The text of a negative number is that of its amount behind a minus sign.
pub proof fn law_signed_text(text: (String, String), n: i64)
    requires
        exists|s: &mut String| #[trigger]
            call_ensures(append_signed, (s, n), ()) && (*s, *final(s)) == text,
    ensures
        ({
            let added = text.1@.skip(text.0@.len() as int);
            &&& text.1@.len() > text.0@.len()
            &&& text.1@.take(text.0@.len() as int) == text.0@
            &&& n < 0 ==> added[0] == '-' && all_decimal(added.skip(1)) && number_of(
                added.skip(1),
                10,
            ) == -n
            &&& n >= 0 ==> all_decimal(added) && number_of(added, 10) == n
        }),
{
    let amount = if n < 0 { (-(n as int)) as nat } else { n as nat };
    lemma_decimal(amount);
    let d = decimal(amount);
    let added = text.1@.skip(text.0@.len() as int);
    assert(text.1@.take(text.0@.len() as int) =~= text.0@);
    if n < 0 {
        assert(added =~= seq!['-'] + d);
        assert(added.skip(1) =~= d);
    } else {
        assert(added =~= d);
    }
}

/// Powers of sixteen.
pub open spec fn sixteen_to(width: nat) -> int
    decreases width,
{
    if width == 0 {
        1
    } else {
        16 * sixteen_to((width - 1) as nat)
    }
}

proof fn lemma_hex(n: nat, width: nat)
    ensures
        hex(n, width).len() == width,
        sixteen_to(width) > 0,
        number_of(hex(n, width), 16) == n as int % sixteen_to(width),
    decreases width,
{
    if width > 0 {
        let w = (width - 1) as nat;
        lemma_hex(n / 16, w);
        let before = hex(n / 16, w);
        let last = digit_char((n % 16) as int);
        assert(before.push(last).drop_last() =~= before);
        assert(digit_of(last) == n % 16);
        let p = sixteen_to(w);
        let q = n as int / 16;
        assert((q % p) * 16 + n as int % 16 == n as int % (16 * p)) by (nonlinear_arith)
            requires
                p > 0,
                q == n as int / 16,
                n >= 0,
        {
            let a = q / p;
            let b = q % p;
            let c = n as int % 16;
            assert(q == a * p + b);
            assert(n as int == 16 * q + c);
            assert(n as int == a * (16 * p) + (16 * b + c));
            assert(0 <= 16 * b + c < 16 * p);
            vstd::arithmetic::div_mod::lemma_fundamental_div_mod_converse(
                n as int,
                16 * p,
                a,
                16 * b + c,
            );
        }
    } else {
        assert(n as int % 1 == 0);
    }
}

/// Sixteen hexadecimal digits stand for a whole 64-bit number.
pub proof fn lemma_fingerprint(n: u64)
    ensures
        hex(n as nat, 16).len() == 16,
        number_of(hex(n as nat, 16), 16) == n,
{
    lemma_hex(n as nat, 16);
    assert(sixteen_to(16) == 0x1_0000_0000_0000_0000) by {
        reveal_with_fuel(sixteen_to, 17);
    }
}

/// The last hexadecimal digits of a number are appended, as many as are asked for,
/// and stand for what is left of the number behind them.
pub proof fn law_hex_text(text: (String, String), n: u64, width: u32)
    requires
        exists|s: &mut String| #[trigger]
            call_ensures(append_hex, (s, n, width), ()) && (*s, *final(s)) == text,
    ensures
        ({
            let digits = text.1@.skip(text.0@.len() as int);
            &&& text.1@.len() == text.0@.len() + width
            &&& text.1@.take(text.0@.len() as int) == text.0@
            &&& number_of(digits, 16) == n as int % sixteen_to(width as nat)
        }),
{
    lemma_hex(n as nat, width as nat);
    let d = hex(n as nat, width as nat);
    assert(text.1@.skip(text.0@.len() as int) =~= d);
    assert(text.1@.take(text.0@.len() as int) =~= text.0@);
}

proof fn lemma_hex_bytes(bytes: Seq<u8>)
    ensures
        hex_bytes(bytes).len() == 2 * bytes.len(),
        forall|i: int|
            0 <= i < bytes.len() ==> number_of(
                hex_bytes(bytes).subrange(2 * i, 2 * i + 2),
                16,
            ) == #[trigger] bytes[i],
    decreases bytes.len(),
{
    if bytes.len() > 0 {
        let before = bytes.drop_last();
        lemma_hex_bytes(before);
        lemma_hex(bytes.last() as nat, 2);
        assert(sixteen_to(2) == 256) by {
            reveal_with_fuel(sixteen_to, 3);
        }
        let h = hex_bytes(bytes);
        assert forall|i: int| 0 <= i < bytes.len() implies number_of(
            h.subrange(2 * i, 2 * i + 2),
            16,
        ) == #[trigger] bytes[i] by {
            if i < before.len() {
                assert(before[i] == bytes[i]);
                assert(h.subrange(2 * i, 2 * i + 2) =~= hex_bytes(before).subrange(
                    2 * i,
                    2 * i + 2,
                ));
            } else {
                assert(h.subrange(2 * i, 2 * i + 2) =~= hex(bytes.last() as nat, 2));
            }
        }
    }
}

/// The text of a byte string has two hexadecimal digits for each byte, which stand for
/// it.
pub proof fn law_bytes_as_text(bytes: Vec<u8>, r: String)
    requires
        call_ensures(hex_of_bytes, (&bytes,), r),
    ensures
        r@.len() == 2 * bytes@.len(),
        forall|i: int|
            0 <= i < bytes@.len() ==> number_of(r@.subrange(2 * i, 2 * i + 2), 16)
                == #[trigger] bytes@[i],
{
    lemma_hex_bytes(bytes@);
}

proof fn lemma_digits_value(text: Seq<char>, bytes: Seq<u8>)
    requires
        text.len() > 0,
        all_decimal(text),
        bytes.len() == text.len(),
        forall|i: int| 0 <= i < text.len() ==> #[trigger] bytes[i] as u32 == text[i] as u32,
    ensures
        digits_value(bytes) == Some(number_of(text, 10) as nat),
        number_of(text, 10) >= 0,
    decreases text.len(),
{
    let n = text.len() - 1;
    assert(bytes[n] as u32 == text[n] as u32);
    assert('0' <= text[n] && text[n] <= '9');
    if n == 0 {
        assert(text.drop_last() =~= Seq::empty());
        assert(number_of(text.drop_last(), 10) == 0);
    } else {
        let t = text.drop_last();
        let b = bytes.drop_last();
        assert forall|i: int| 0 <= i < t.len() implies #[trigger] b[i] as u32 == t[i] as u32 by {
            assert(bytes[i] as u32 == text[i] as u32);
        }
        assert forall|i: int| 0 <= i < t.len() implies '0' <= #[trigger] t[i] && t[i] <= '9' by {
            assert('0' <= text[i]);
        }
        lemma_digits_value(t, b);
    }
}

/// The text of a number is read back as that number.
pub proof fn law_number_is_read_back(text: &str, n: usize, r: Option<usize>)
    requires
        all_decimal(text@),
        text@.len() > 0,
        number_of(text@, 10) == n,
        call_ensures(parse_usize, (text,), r),
    ensures
        r == Some(n),
{
    let t = text@;
    assert(is_ascii_chars(t)) by {
        assert forall|i: int| 0 <= i < t.len() implies 0 <= (#[trigger] t[i]) as u32 && t[i] as u32
            <= 127 by {
            assert('0' <= t[i] && t[i] <= '9');
        }
    }
    is_ascii_chars_encode_utf8(t);
    let b = encode_utf8(t);
    assert forall|i: int| 0 <= i < t.len() implies #[trigger] b[i] as u32 == t[i] as u32 by {
        assert('0' <= t[i] && t[i] <= '9');
    }
    assert('0' <= t[0] && t[0] <= '9');
    assert(number_digits(b) == b);
    lemma_digits_value(t, b);
}

/// A text that is empty, or holds anything but digits behind a plus sign, is no number.
pub proof fn law_other_text_is_no_number(text: &str, r: Option<usize>, i: int)
    requires
        call_ensures(parse_usize, (text,), r),
        0 <= i < encode_utf8(text@).len(),
        !(48 <= encode_utf8(text@)[i] <= 57),
        !(i == 0 && encode_utf8(text@)[0] == 43),
    ensures
        r is None,
{
    let b = encode_utf8(text@);
    let d = number_digits(b);
    let k = if b[0] == 43 { i - 1 } else { i };
    lemma_not_digits(d, k);
}

proof fn lemma_not_digits(d: Seq<u8>, k: int)
    requires
        0 <= k < d.len(),
        !(48 <= d[k] <= 57),
    ensures
        digits_value(d) is None,
    decreases d.len(),
{
    if k < d.len() - 1 {
        lemma_not_digits(d.drop_last(), k);
    }
}

/// Of an option that is given the number behind its first place counts; the default
/// counts where it is not given, stands last, or has no number behind it.
pub proof fn law_first_option_counts(
    args: &[String],
    option: &str,
    default: usize,
    r: usize,
    i: int,
)
    requires
        call_ensures(option_value, (args, option, default), r),
        0 <= i < args@.len(),
        forall|j: int| 0 <= j < i ==> (#[trigger] args@[j])@ != option@,
        i == args@.len() - 1 || args@[i]@ == option@,
    ensures
        i == args@.len() - 1 ==> r == default,
        i < args@.len() - 1 ==> r == (match parsed_usize(encode_utf8(args@[i + 1]@)) {
            Some(v) => v,
            None => default,
        }),
{
    lemma_option(args@, option@, 0, i);
}

proof fn lemma_option(args: Seq<String>, option: Seq<char>, from: int, i: int)
    requires
        0 <= from <= i < args.len(),
        forall|j: int| 0 <= j < i ==> (#[trigger] args[j])@ != option,
        i == args.len() - 1 || args[i]@ == option,
    ensures
        i == args.len() - 1 ==> option_text(args, option, from) is None,
        i < args.len() - 1 ==> option_text(args, option, from) == Some(args[i + 1]@),
    decreases i - from,
{
    if from < i {
        assert(args[from]@ != option);
        lemma_option(args, option, from + 1, i);
    }
}

/// Two bytes are appended that stand for the number, the least significant first.
pub proof fn law_two_bytes(out: (Vec<u8>, Vec<u8>), x: u16)
    requires
        exists|v: &mut Vec<u8>| #[trigger]
            call_ensures(push_le16, (v, x), ()) && (*v, *final(v)) == out,
    ensures
        ({
            let n = out.0@.len() as int;
            let b = out.1@;
            &&& b.len() == n + 2
            &&& b.take(n) == out.0@
            &&& b[n] + 0x100 * b[n + 1] == x
        }),
{
    assert(out.1@.take(out.0@.len() as int) =~= out.0@);
    assert((x as u8) + 0x100 * ((x >> 8) as u8) == x) by (bit_vector);
}

/// Four bytes are appended that stand for the number, the least significant first.
pub proof fn law_four_bytes(out: (Vec<u8>, Vec<u8>), x: u32)
    requires
        exists|v: &mut Vec<u8>| #[trigger]
            call_ensures(push_le32, (v, x), ()) && (*v, *final(v)) == out,
    ensures
        ({
            let n = out.0@.len() as int;
            let b = out.1@;
            &&& b.len() == n + 4
            &&& b.take(n) == out.0@
            &&& b[n] + 0x100 * b[n + 1] + 0x1_0000 * b[n + 2] + 0x100_0000 * b[n + 3] == x
        }),
{
    assert(out.1@.take(out.0@.len() as int) =~= out.0@);
    assert((x as u8) + 0x100 * ((x >> 8) as u8) + 0x1_0000 * ((x >> 16) as u8) + 0x100_0000 * ((x
        >> 24) as u8) == x) by (bit_vector);
}

/// Eight bytes are appended, each the next eight bits of the number, the least
/// significant first.
pub proof fn law_eight_bytes(out: (Vec<u8>, Vec<u8>), x: u64)
    requires
        exists|v: &mut Vec<u8>| #[trigger]
            call_ensures(push_le64, (v, x), ()) && (*v, *final(v)) == out,
    ensures
        ({
            let n = out.0@.len() as int;
            let b = out.1@;
            &&& b.len() == n + 8
            &&& b.take(n) == out.0@
            &&& b[n] == x & 0xff
            &&& b[n + 1] == (x >> 8) & 0xff
            &&& b[n + 2] == (x >> 16) & 0xff
            &&& b[n + 3] == (x >> 24) & 0xff
            &&& b[n + 4] == (x >> 32) & 0xff
            &&& b[n + 5] == (x >> 40) & 0xff
            &&& b[n + 6] == (x >> 48) & 0xff
            &&& b[n + 7] == (x >> 56) & 0xff
        }),
{
    assert(out.1@.take(out.0@.len() as int) =~= out.0@);
    assert({
        &&& x as u8 == x & 0xff
        &&& (x >> 8) as u8 == (x >> 8) & 0xff
        &&& (x >> 16) as u8 == (x >> 16) & 0xff
        &&& (x >> 24) as u8 == (x >> 24) & 0xff
        &&& (x >> 32) as u8 == (x >> 32) & 0xff
        &&& (x >> 40) as u8 == (x >> 40) & 0xff
        &&& (x >> 48) as u8 == (x >> 48) & 0xff
        &&& (x >> 56) as u8 == (x >> 56) & 0xff
    }) by (bit_vector);
}

/// The encryption methods that are supported are none, the traditional one and AES
/// with 128, 192 or 256 bits, in both directions.
pub proof fn law_supported_encryption(method: u16, encode: i32, r: i32)
    requires
        call_ensures(zip_encryption_method_supported, (method, encode), r),
    ensures
        r == 1 <==> method == 0 || method == 1 || method == 0x101 || method == 0x102 || method
            == 0x103,
        r == 0 || r == 1,
{
}

/// The compression methods that are supported are the default, stored and deflate in
/// both directions, and bzip2 for reading.
pub proof fn law_supported_compression(method: i32, compress: i32, r: i32)
    requires
        call_ensures(zip_compression_method_supported, (method, compress), r),
    ensures
        r == 1 <==> method == -1 || method == 0 || method == 8 || (method == 12 && compress == 0),
        r == 0 || r == 1,
{
}

/// The codes that carry an error of the system are those of renaming, closing,
/// seeking, reading, writing, opening, creating, removing and telling; those of the
/// compressor and of the archive's consistency carry errors of their own kind.
pub proof fn law_kind_of_an_error(code: i32, r: i32)
    requires
        call_ensures(zip_error_get_sys_type, (code,), r),
    ensures
        r == 1 <==> code == 2 || code == 3 || code == 4 || code == 5 || code == 6 || code == 11
            || code == 12 || code == 22 || code == 30,
        r == 2 <==> code == 13,
        r == 3 <==> code == 21,
        0 <= r <= 3,
{
}

/// The text of a code is its message; an error of the system stands behind it, after a
/// colon, as a number.
pub proof fn law_text_of_an_error(code: i32, sys: i32, message: &str, r: String)
    requires
        call_ensures(err_str, (code,), message),
        call_ensures(error_string, (code, sys), r),
    ensures
        sys == 0 ==> r@ == message@,
        sys != 0 ==> {
            let n = message@.len() as int;
            &&& r@.len() > n + 2
            &&& r@.take(n) == message@
            &&& r@[n] == ':' && r@[n + 1] == ' '
            &&& sys > 0 ==> number_of(r@.skip(n + 2), 10) == sys
            &&& sys < 0 ==> r@[n + 2] == '-' && number_of(r@.skip(n + 3), 10) == -sys
        },
{
    if sys != 0 {
        let n = message@.len() as int;
        let amount = if sys < 0 { (-(sys as int)) as nat } else { sys as nat };
        lemma_decimal(amount);
        reveal_strlit(": ");
        assert(r@.take(n) =~= message@);
        if sys < 0 {
            assert(r@.skip(n + 3) =~= decimal(amount));
        } else {
            assert(r@.skip(n + 2) =~= decimal(amount));
        }
    }
}

/// The text of a code is put into a buffer as far as it fits before a closing NUL; what
/// is behind that in the buffer stays.
pub proof fn law_error_text_is_stored(
    buf: (Seq<u8>, Seq<u8>),
    len: u64,
    code: i32,
    sys: i32,
    text: String,
    r: i32,
)
    requires
        0 < len <= buf.0.len(),
        call_ensures(error_string, (code, sys), text),
        exists|b: &mut Vec<u8>| #[trigger]
            call_ensures(zip_error_to_str, (Some(b), len, code, sys), r) && (b@, final(b)@) == buf,
    ensures
        ({
            let bytes = encode_utf8(text@);
            let n = if bytes.len() < len - 1 { bytes.len() as int } else { len - 1 };
            &&& r == n
            &&& buf.1.len() == buf.0.len()
            &&& forall|i: int|
                0 <= i < buf.0.len() ==> #[trigger] buf.1[i] == (if i < n {
                    bytes[i]
                } else if i == n {
                    0
                } else {
                    buf.0[i]
                })
        }),
{
}

} // verus!
