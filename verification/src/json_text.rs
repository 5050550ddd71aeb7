//! Serialization of canonical JSON values to JSON text, as bytes.
//!
//! The output is the library's normalized body form: compact (no
//! whitespace), with every character outside printable ASCII written as an
//! escape. A floating node carries the host's rendering of the number and
//! that token is written out verbatim; this library does not format
//! floating-point values itself.

use vstd::prelude::*;

use crate::value::{spec_finite_bits, JsonModel, JsonValue};
use crate::value::{json_model_entries, json_model_seq};
use crate::value::{lemma_json_model_entries, lemma_json_model_seq};

verus! {

// ---------------------------------------------------------------------------
// Decimal tokens
// ---------------------------------------------------------------------------

pub open spec fn spec_dec_digits(n: nat) -> Seq<u8>
    decreases n,
{
    if n < 10 {
        seq![(48 + n) as u8]
    } else {
        spec_dec_digits(n / 10) + seq![(48 + n % 10) as u8]
    }
}

pub open spec fn spec_int_token(i: int) -> Seq<u8> {
    if i < 0 {
        seq![45u8] + spec_dec_digits((-i) as nat)
    } else {
        spec_dec_digits(i as nat)
    }
}

/// Every byte of a decimal token is an ASCII digit.
pub proof fn lemma_dec_digits_ascii(n: nat)
    ensures
        spec_dec_digits(n).len() >= 1,
        forall|i: int|
            0 <= i < spec_dec_digits(n).len() ==> 48 <= #[trigger] spec_dec_digits(n)[i] <= 57,
    decreases n,
{
    if n >= 10 {
        lemma_dec_digits_ascii(n / 10);
    }
}

/// Appends the decimal digits of `n`.
#[verifier::loop_isolation(false)]
pub fn push_dec_digits(n: u64, out: &mut Vec<u8>)
    ensures
        final(out)@ == old(out)@ + spec_dec_digits(n as nat),
    decreases n,
{
    if n < 10 {
        out.push(48 + n as u8);
        proof {
            assert(final(out)@ =~= old(out)@ + spec_dec_digits(n as nat));
        }
    } else {
        push_dec_digits(n / 10, out);
        out.push(48 + (n % 10) as u8);
        proof {
            assert(final(out)@ =~= old(out)@ + spec_dec_digits(n as nat));
        }
    }
}

/// Appends the decimal token of `i`, a leading minus sign included.
pub fn push_int_token(i: i64, out: &mut Vec<u8>)
    ensures
        final(out)@ == old(out)@ + spec_int_token(i as int),
{
    if i < 0 {
        out.push(45);
        let wide: i128 = i as i128;
        let mag: u64 = (-wide) as u64;
        assert(mag as nat == (-(i as int)) as nat);
        push_dec_digits(mag, out);
        proof {
            assert(final(out)@ =~= old(out)@ + spec_int_token(i as int));
        }
    } else {
        push_dec_digits(i as u64, out);
    }
}

// ---------------------------------------------------------------------------
// String escaping
// ---------------------------------------------------------------------------

pub open spec fn spec_hex_digit(n: int) -> u8 {
    if n < 10 {
        (48 + n) as u8
    } else {
        (87 + n) as u8
    }
}

/// The six bytes of a JSON `\u` escape for a code unit below 0x10000.
pub open spec fn spec_unicode_escape(n: int) -> Seq<u8> {
    seq![
        92u8,
        117u8,
        spec_hex_digit(n / 0x1000 % 16),
        spec_hex_digit(n / 0x100 % 16),
        spec_hex_digit(n / 0x10 % 16),
        spec_hex_digit(n % 16),
    ]
}

/// The escape of one character: the two-byte escapes JSON names, `\u`
/// escapes for other control characters and for everything outside ASCII
/// (a character beyond the basic plane becomes a surrogate pair), and the
/// character itself otherwise.
pub open spec fn spec_escape_char(c: char) -> Seq<u8> {
    let n = c as u32;
    if n == 34 {
        seq![92u8, 34u8]
    } else if n == 92 {
        seq![92u8, 92u8]
    } else if n == 8 {
        seq![92u8, 98u8]
    } else if n == 9 {
        seq![92u8, 116u8]
    } else if n == 10 {
        seq![92u8, 110u8]
    } else if n == 12 {
        seq![92u8, 102u8]
    } else if n == 13 {
        seq![92u8, 114u8]
    } else if n < 32 || n >= 128 {
        if n < 0x10000 {
            spec_unicode_escape(n as int)
        } else {
            spec_unicode_escape(0xd800 + (n - 0x10000) as int / 0x400) + spec_unicode_escape(
                0xdc00 + (n - 0x10000) as int % 0x400,
            )
        }
    } else {
        seq![n as u8]
    }
}

pub open spec fn spec_escape(s: Seq<char>) -> Seq<u8>
    decreases s,
{
    if s.len() == 0 {
        Seq::empty()
    } else {
        spec_escape_char(s[0]) + spec_escape(s.subrange(1, s.len() as int))
    }
}

/// A JSON string token: quote, escaped characters, quote.
pub open spec fn spec_text_token(s: Seq<char>) -> Seq<u8> {
    seq![34u8] + spec_escape(s) + seq![34u8]
}

pub proof fn lemma_spec_escape_step(s: Seq<char>, i: int)
    requires
        0 <= i < s.len(),
    ensures
        spec_escape(s.take(i + 1)) == spec_escape(s.take(i)) + spec_escape_char(s[i]),
    decreases s,
{
    if i == 0 {
        assert(s.take(0) =~= Seq::<char>::empty());
        assert(s.take(1) =~= seq![s[0]]);
        assert(s.take(1).subrange(1, 1) =~= Seq::<char>::empty());
        assert(spec_escape(s.take(1).subrange(1, 1)) =~= Seq::<u8>::empty());
        assert(spec_escape(s.take(1)) =~= spec_escape_char(s[0]));
        assert(spec_escape(s.take(0)) + spec_escape_char(s[0]) =~= spec_escape_char(s[0]));
    } else {
        let rest = s.subrange(1, s.len() as int);
        lemma_spec_escape_step(rest, i - 1);
        assert(s.take(i)[0] == s[0]);
        assert(s.take(i + 1)[0] == s[0]);
        assert(s.take(i).subrange(1, i) =~= rest.take(i - 1));
        assert(s.take(i + 1).subrange(1, i + 1) =~= rest.take(i));
        assert(rest[i - 1] == s[i]);
        assert(spec_escape_char(s[0]) + (spec_escape(rest.take(i - 1)) + spec_escape_char(s[i]))
            =~= (spec_escape_char(s[0]) + spec_escape(rest.take(i - 1))) + spec_escape_char(s[i]));
    }
}

fn hex_digit(n: u32) -> (r: u8)
    requires
        n < 16,
    ensures
        r == spec_hex_digit(n as int),
{
    if n < 10 {
        48 + n as u8
    } else {
        87 + n as u8
    }
}

/// Appends the `\u` escape of one code unit.
fn push_unicode_escape(n: u32, out: &mut Vec<u8>)
    requires
        n < 0x10000,
    ensures
        final(out)@ == old(out)@ + spec_unicode_escape(n as int),
{
    out.push(92);
    out.push(117);
    out.push(hex_digit(n / 0x1000 % 16));
    out.push(hex_digit(n / 0x100 % 16));
    out.push(hex_digit(n / 0x10 % 16));
    out.push(hex_digit(n % 16));
    proof {
        assert(final(out)@ =~= old(out)@ + spec_unicode_escape(n as int));
    }
}

/// Appends the escape of one character.
fn push_escaped_char(c: char, out: &mut Vec<u8>)
    ensures
        final(out)@ == old(out)@ + spec_escape_char(c),
{
    let n = c as u32;
    if n == 34 {
        out.push(92);
        out.push(34);
        proof {
            assert(final(out)@ =~= old(out)@ + spec_escape_char(c));
        }
    } else if n == 92 {
        out.push(92);
        out.push(92);
        proof {
            assert(final(out)@ =~= old(out)@ + spec_escape_char(c));
        }
    } else if n == 8 {
        out.push(92);
        out.push(98);
        proof {
            assert(final(out)@ =~= old(out)@ + spec_escape_char(c));
        }
    } else if n == 9 {
        out.push(92);
        out.push(116);
        proof {
            assert(final(out)@ =~= old(out)@ + spec_escape_char(c));
        }
    } else if n == 10 {
        out.push(92);
        out.push(110);
        proof {
            assert(final(out)@ =~= old(out)@ + spec_escape_char(c));
        }
    } else if n == 12 {
        out.push(92);
        out.push(102);
        proof {
            assert(final(out)@ =~= old(out)@ + spec_escape_char(c));
        }
    } else if n == 13 {
        out.push(92);
        out.push(114);
        proof {
            assert(final(out)@ =~= old(out)@ + spec_escape_char(c));
        }
    } else if n < 32 || n >= 128 {
        if n < 0x10000 {
            push_unicode_escape(n, out);
        } else {
            let high: u32 = 0xd800 + (n - 0x10000) / 0x400;
            let low: u32 = 0xdc00 + (n - 0x10000) % 0x400;
            push_unicode_escape(high, out);
            push_unicode_escape(low, out);
            proof {
                assert(final(out)@ =~= old(out)@ + spec_escape_char(c));
            }
        }
    } else {
        out.push(n as u8);
        proof {
            assert(final(out)@ =~= old(out)@ + spec_escape_char(c));
        }
    }
}

/// Appends the JSON string token of `s`.
#[verifier::loop_isolation(false)]
pub fn push_text_token(s: &str, out: &mut Vec<u8>)
    ensures
        final(out)@ == old(out)@ + spec_text_token(s@),
{
    out.push(34);
    let len = s.unicode_len();
    let mut i: usize = 0;
    while i < len
        invariant
            i <= len,
            out@ == old(out)@ + seq![34u8] + spec_escape(s@.take(i as int)),
        decreases len - i,
    {
        let c = s.get_char(i);
        proof {
            lemma_spec_escape_step(s@, i as int);
        }
        push_escaped_char(c, out);
        proof {
            assert(out@ =~= old(out)@ + seq![34u8] + spec_escape(s@.take(i as int + 1)));
        }
        i = i + 1;
    }
    proof {
        assert(s@.take(s@.len() as int) =~= s@);
        assert(spec_escape(s@.take(0)) =~= Seq::<u8>::empty());
    }
    out.push(34);
    proof {
        assert(final(out)@ =~= old(out)@ + spec_text_token(s@));
    }
}

// ---------------------------------------------------------------------------
// JSON text of a whole value
// ---------------------------------------------------------------------------

/// The bytes of an ASCII token carried as a string: each character taken as
/// the byte of its code, truncated.
pub open spec fn spec_token_bytes(s: Seq<char>) -> Seq<u8> {
    s.map_values(|c: char| c as u8)
}

pub open spec fn json_bytes(j: JsonModel) -> Seq<u8>
    decreases j, 0int,
{
    match j {
        JsonModel::Null => seq![110u8, 117u8, 108u8, 108u8],
        JsonModel::Bool(b) => if b {
            seq![116u8, 114u8, 117u8, 101u8]
        } else {
            seq![102u8, 97u8, 108u8, 115u8, 101u8]
        },
        JsonModel::Int(i) => spec_int_token(i as int),
        JsonModel::Float(bits, token) => if spec_finite_bits(bits) {
            spec_token_bytes(token)
        } else {
            seq![110u8, 117u8, 108u8, 108u8]
        },
        JsonModel::Text(s) => spec_text_token(s),
        JsonModel::Array(items) => seq![91u8] + json_bytes_items(items) + seq![93u8],
        JsonModel::Object(entries) => seq![123u8] + json_bytes_entries(entries) + seq![125u8],
    }
}

pub open spec fn json_bytes_items(s: Seq<JsonModel>) -> Seq<u8>
    decreases s, 1int,
{
    if s.len() == 0 {
        Seq::empty()
    } else {
        json_bytes(s[0]) + json_bytes_items_rest(s.subrange(1, s.len() as int))
    }
}

pub open spec fn json_bytes_items_rest(s: Seq<JsonModel>) -> Seq<u8>
    decreases s, 2int,
{
    if s.len() == 0 {
        Seq::empty()
    } else {
        seq![44u8] + json_bytes(s[0]) + json_bytes_items_rest(s.subrange(1, s.len() as int))
    }
}

pub open spec fn json_bytes_entry(e: (Seq<char>, JsonModel)) -> Seq<u8>
    decreases e, 0int,
{
    spec_text_token(e.0) + seq![58u8] + json_bytes(e.1)
}

pub open spec fn json_bytes_entries(s: Seq<(Seq<char>, JsonModel)>) -> Seq<u8>
    decreases s, 1int,
{
    if s.len() == 0 {
        Seq::empty()
    } else {
        json_bytes_entry(s[0]) + json_bytes_entries_rest(s.subrange(1, s.len() as int))
    }
}

pub open spec fn json_bytes_entries_rest(s: Seq<(Seq<char>, JsonModel)>) -> Seq<u8>
    decreases s, 2int,
{
    if s.len() == 0 {
        Seq::empty()
    } else {
        seq![44u8] + json_bytes_entry(s[0]) + json_bytes_entries_rest(s.subrange(1, s.len() as int))
    }
}

pub proof fn lemma_json_items_step(s: Seq<JsonModel>, i: int)
    requires
        0 <= i < s.len(),
    ensures
        json_bytes_items(s.take(i + 1)) == json_bytes_items(s.take(i)) + (if i == 0 {
            json_bytes(s[0])
        } else {
            seq![44u8] + json_bytes(s[i])
        }),
    decreases s,
{
    if i == 0 {
        assert(s.take(0) =~= Seq::<JsonModel>::empty());
        assert(s.take(1) =~= seq![s[0]]);
        assert(s.take(1).subrange(1, 1) =~= Seq::<JsonModel>::empty());
        assert(json_bytes_items_rest(s.take(1).subrange(1, 1)) =~= Seq::<u8>::empty());
        assert(json_bytes_items(s.take(1)) =~= json_bytes(s[0]));
        assert(json_bytes_items(s.take(0)) + json_bytes(s[0]) =~= json_bytes(s[0]));
    } else {
        let rest = s.subrange(1, s.len() as int);
        lemma_json_items_rest_step(rest, i - 1);
        assert(s.take(i)[0] == s[0]);
        assert(s.take(i + 1)[0] == s[0]);
        assert(s.take(i).subrange(1, i) =~= rest.take(i - 1));
        assert(s.take(i + 1).subrange(1, i + 1) =~= rest.take(i));
        assert(rest[i - 1] == s[i]);
        assert(json_bytes(s[0]) + (json_bytes_items_rest(rest.take(i - 1)) + (seq![44u8]
            + json_bytes(s[i]))) =~= (json_bytes(s[0]) + json_bytes_items_rest(rest.take(i - 1)))
            + (seq![44u8] + json_bytes(s[i])));
    }
}

pub proof fn lemma_json_items_rest_step(s: Seq<JsonModel>, i: int)
    requires
        0 <= i < s.len(),
    ensures
        json_bytes_items_rest(s.take(i + 1)) == json_bytes_items_rest(s.take(i)) + (seq![44u8]
            + json_bytes(s[i])),
    decreases s,
{
    if i == 0 {
        assert(s.take(0) =~= Seq::<JsonModel>::empty());
        assert(s.take(1) =~= seq![s[0]]);
        assert(s.take(1).subrange(1, 1) =~= Seq::<JsonModel>::empty());
        assert(json_bytes_items_rest(s.take(1).subrange(1, 1)) =~= Seq::<u8>::empty());
        assert(json_bytes_items_rest(s.take(1)) =~= seq![44u8] + json_bytes(s[0]));
        assert(json_bytes_items_rest(s.take(0)) + (seq![44u8] + json_bytes(s[0])) =~= seq![44u8]
            + json_bytes(s[0]));
    } else {
        let rest = s.subrange(1, s.len() as int);
        lemma_json_items_rest_step(rest, i - 1);
        assert(s.take(i)[0] == s[0]);
        assert(s.take(i + 1)[0] == s[0]);
        assert(s.take(i).subrange(1, i) =~= rest.take(i - 1));
        assert(s.take(i + 1).subrange(1, i + 1) =~= rest.take(i));
        assert(rest[i - 1] == s[i]);
        assert((seq![44u8] + json_bytes(s[0])) + (json_bytes_items_rest(rest.take(i - 1)) + (
        seq![44u8] + json_bytes(s[i]))) =~= ((seq![44u8] + json_bytes(s[0]))
            + json_bytes_items_rest(rest.take(i - 1))) + (seq![44u8] + json_bytes(s[i])));
    }
}

pub proof fn lemma_json_entries_step(s: Seq<(Seq<char>, JsonModel)>, i: int)
    requires
        0 <= i < s.len(),
    ensures
        json_bytes_entries(s.take(i + 1)) == json_bytes_entries(s.take(i)) + (if i == 0 {
            json_bytes_entry(s[0])
        } else {
            seq![44u8] + json_bytes_entry(s[i])
        }),
    decreases s,
{
    if i == 0 {
        assert(s.take(0) =~= Seq::<(Seq<char>, JsonModel)>::empty());
        assert(s.take(1) =~= seq![s[0]]);
        assert(s.take(1).subrange(1, 1) =~= Seq::<(Seq<char>, JsonModel)>::empty());
        assert(json_bytes_entries_rest(s.take(1).subrange(1, 1)) =~= Seq::<u8>::empty());
        assert(json_bytes_entries(s.take(1)) =~= json_bytes_entry(s[0]));
        assert(json_bytes_entries(s.take(0)) + json_bytes_entry(s[0]) =~= json_bytes_entry(s[0]));
    } else {
        let rest = s.subrange(1, s.len() as int);
        lemma_json_entries_rest_step(rest, i - 1);
        assert(s.take(i)[0] == s[0]);
        assert(s.take(i + 1)[0] == s[0]);
        assert(s.take(i).subrange(1, i) =~= rest.take(i - 1));
        assert(s.take(i + 1).subrange(1, i + 1) =~= rest.take(i));
        assert(rest[i - 1] == s[i]);
        assert(json_bytes_entry(s[0]) + (json_bytes_entries_rest(rest.take(i - 1)) + (seq![44u8]
            + json_bytes_entry(s[i]))) =~= (json_bytes_entry(s[0]) + json_bytes_entries_rest(
            rest.take(i - 1),
        )) + (seq![44u8] + json_bytes_entry(s[i])));
    }
}

pub proof fn lemma_json_entries_rest_step(s: Seq<(Seq<char>, JsonModel)>, i: int)
    requires
        0 <= i < s.len(),
    ensures
        json_bytes_entries_rest(s.take(i + 1)) == json_bytes_entries_rest(s.take(i)) + (seq![44u8]
            + json_bytes_entry(s[i])),
    decreases s,
{
    if i == 0 {
        assert(s.take(0) =~= Seq::<(Seq<char>, JsonModel)>::empty());
        assert(s.take(1) =~= seq![s[0]]);
        assert(s.take(1).subrange(1, 1) =~= Seq::<(Seq<char>, JsonModel)>::empty());
        assert(json_bytes_entries_rest(s.take(1).subrange(1, 1)) =~= Seq::<u8>::empty());
        assert(json_bytes_entries_rest(s.take(1)) =~= seq![44u8] + json_bytes_entry(s[0]));
        assert(json_bytes_entries_rest(s.take(0)) + (seq![44u8] + json_bytes_entry(s[0]))
            =~= seq![44u8] + json_bytes_entry(s[0]));
    } else {
        let rest = s.subrange(1, s.len() as int);
        lemma_json_entries_rest_step(rest, i - 1);
        assert(s.take(i)[0] == s[0]);
        assert(s.take(i + 1)[0] == s[0]);
        assert(s.take(i).subrange(1, i) =~= rest.take(i - 1));
        assert(s.take(i + 1).subrange(1, i + 1) =~= rest.take(i));
        assert(rest[i - 1] == s[i]);
        assert((seq![44u8] + json_bytes_entry(s[0])) + (json_bytes_entries_rest(rest.take(i - 1))
            + (seq![44u8] + json_bytes_entry(s[i]))) =~= ((seq![44u8] + json_bytes_entry(s[0]))
            + json_bytes_entries_rest(rest.take(i - 1))) + (seq![44u8] + json_bytes_entry(s[i])));
    }
}

/// Appends the JSON text of `v`.
#[verifier::loop_isolation(false)]
#[verifier::rlimit(60)]
pub fn push_json_bytes(v: &JsonValue, out: &mut Vec<u8>)
    ensures
        final(out)@ == old(out)@ + json_bytes(v@),
    decreases v,
{
    match v {
        JsonValue::Null => {
            out.push(110);
            out.push(117);
            out.push(108);
            out.push(108);
            proof {
                assert(final(out)@ =~= old(out)@ + json_bytes(v@));
            }
        },
        JsonValue::Bool(b) => {
            if *b {
                out.push(116);
                out.push(114);
                out.push(117);
                out.push(101);
            } else {
                out.push(102);
                out.push(97);
                out.push(108);
                out.push(115);
                out.push(101);
            }
            proof {
                assert(final(out)@ =~= old(out)@ + json_bytes(v@));
            }
        },
        JsonValue::Int(i) => {
            push_int_token(*i, out);
        },
        JsonValue::Float(bits, token) => {
            if crate::value::finite_bits(*bits) {
                let token_len = token.as_str().unicode_len();
                let mut k: usize = 0;
                while k < token_len
                    invariant
                        k <= token_len,
                        token_len == token@.len(),
                        out@ == old(out)@ + spec_token_bytes(token@.take(k as int)),
                    decreases token_len - k,
                {
                    let c = token.as_str().get_char(k);
                    #[verifier::truncate]
                    let b = c as u8;
                    out.push(b);
                    proof {
                        assert(out@ =~= old(out)@ + spec_token_bytes(token@.take(k as int + 1)));
                    }
                    k = k + 1;
                }
                proof {
                    assert(token@.take(token@.len() as int) =~= token@);
                    assert(out@ =~= old(out)@ + json_bytes(v@));
                }
            } else {
                out.push(110);
                out.push(117);
                out.push(108);
                out.push(108);
                proof {
                    assert(final(out)@ =~= old(out)@ + json_bytes(v@));
                }
            }
        },
        JsonValue::Text(s) => {
            push_text_token(s.as_str(), out);
        },
        JsonValue::Array(items) => {
            proof {
                lemma_json_model_seq(items@);
            }
            let ghost m = json_model_seq(items@);
            out.push(91);
            let mut i: usize = 0;
            while i < items.len()
                invariant
                    i <= items.len(),
                    out@ == old(out)@ + seq![91u8] + json_bytes_items(m.take(i as int)),
                decreases items.len() - i,
            {
                proof {
                    assert(decreases_to!(*v => *items));
                    assert(decreases_to!(*items => items@[i as int]));
                    lemma_json_items_step(m, i as int);
                }
                if i > 0 {
                    out.push(44);
                }
                push_json_bytes(&items[i], out);
                proof {
                    assert(out@ =~= old(out)@ + seq![91u8] + json_bytes_items(
                        m.take(i as int + 1),
                    ));
                }
                i = i + 1;
            }
            proof {
                assert(m.take(m.len() as int) =~= m);
            }
            out.push(93);
            proof {
                assert(final(out)@ =~= old(out)@ + json_bytes(v@));
            }
        },
        JsonValue::Object(entries) => {
            proof {
                lemma_json_model_entries(entries@);
            }
            let ghost m = json_model_entries(entries@);
            out.push(123);
            let mut i: usize = 0;
            while i < entries.len()
                invariant
                    i <= entries.len(),
                    out@ == old(out)@ + seq![123u8] + json_bytes_entries(m.take(i as int)),
                decreases entries.len() - i,
            {
                proof {
                    assert(decreases_to!(*v => *entries));
                    assert(decreases_to!(*entries => entries@[i as int]));
                    assert(decreases_to!(entries@[i as int] => entries@[i as int].1));
                    lemma_json_entries_step(m, i as int);
                }
                if i > 0 {
                    out.push(44);
                }
                push_text_token(entries[i].0.as_str(), out);
                out.push(58);
                push_json_bytes(&entries[i].1, out);
                proof {
                    assert(out@ =~= old(out)@ + seq![123u8] + json_bytes_entries(
                        m.take(i as int + 1),
                    ));
                }
                i = i + 1;
            }
            proof {
                assert(m.take(m.len() as int) =~= m);
            }
            out.push(125);
            proof {
                assert(final(out)@ =~= old(out)@ + json_bytes(v@));
            }
        },
    }
}

/// The JSON text of `v`, as bytes.
pub fn to_json_bytes(v: &JsonValue) -> (r: Vec<u8>)
    ensures
        r@ == json_bytes(v@),
{
    let mut out: Vec<u8> = Vec::new();
    push_json_bytes(v, &mut out);
    proof {
        assert(out@ =~= json_bytes(v@));
    }
    out
}


// ---------------------------------------------------------------------------
// ASCII bytes back to a string
// ---------------------------------------------------------------------------

/// Relies on String::from_utf8: ASCII bytes are valid UTF-8 and decode to
/// the characters of the same codes, one per byte.
#[verifier::external_body]
pub fn ascii_bytes_to_string(v: Vec<u8>) -> (r: String)
    requires
        forall|i: int| 0 <= i < v@.len() ==> v@[i] < 128,
    ensures
        r@ == v@.map_values(|b: u8| b as char),
{
    match String::from_utf8(v) {
        Ok(s) => s,
        Err(_) => String::new(),
    }
}

} // verus!
