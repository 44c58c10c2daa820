use std::collections::hash_map::DefaultHasher;
use std::hash::Hasher;
use vstd::prelude::*;
use vstd::std_specs::hash::DefaultHasherAdditionalSpecFns;
use vstd::string::StringExecFns;
use vstd::utf8::encode_utf8;
use vstd::utf8::encode_utf8_decode_utf8;

verus! {

/// The byte strings that stand for a text in a hash: its UTF-8 bytes, then
/// one byte, 0xFF, that no UTF-8 text holds, so that where one text ends is
/// never in doubt.
pub open spec fn text_record(text: Seq<char>) -> Seq<Seq<u8>> {
    seq![encode_utf8(text), seq![0xFFu8]]
}

/// The byte string that stands for a text that is not there.
pub open spec fn absent_mark() -> Seq<u8> {
    seq![0u8, 0u8, 0u8, 0u8, 0u8, 0u8, 0u8, 0u8]
}

/// The byte string that goes before a text that may be missing and is there.
pub open spec fn present_mark() -> Seq<u8> {
    seq![1u8, 0u8, 0u8, 0u8, 0u8, 0u8, 0u8, 0u8]
}

/// The byte strings that stand for a text that may be missing.
pub open spec fn optional_text_record(text: Option<Seq<char>>) -> Seq<Seq<u8>> {
    match text {
        None => seq![absent_mark()],
        Some(t) => seq![present_mark()] + text_record(t),
    }
}

/// The value of an optional string.
pub open spec fn text_of(text: Option<String>) -> Option<Seq<char>> {
    match text {
        None => None,
        Some(t) => Some(t@),
    }
}

/// The decimal digit for a number below ten.
pub open spec fn digit(d: nat) -> char {
    if d == 0 {
        '0'
    } else if d == 1 {
        '1'
    } else if d == 2 {
        '2'
    } else if d == 3 {
        '3'
    } else if d == 4 {
        '4'
    } else if d == 5 {
        '5'
    } else if d == 6 {
        '6'
    } else if d == 7 {
        '7'
    } else if d == 8 {
        '8'
    } else {
        '9'
    }
}

/// A number written in decimal, without leading zeros.
pub open spec fn decimal(n: nat) -> Seq<char>
    decreases n,
{
    if n < 10 {
        seq![digit(n)]
    } else {
        decimal(n / 10).push(digit(n % 10))
    }
}

/// The content hash of what was written to a hasher: the hasher's 64-bit
/// digest in decimal.
pub open spec fn content_hash(written: Seq<Seq<u8>>) -> Seq<char> {
    decimal(DefaultHasher::spec_finish(written) as nat)
}

/// Writes a text to the hasher.
pub fn write_text(hasher: &mut DefaultHasher, text: &str)
    ensures
        final(hasher)@ == old(hasher)@ + text_record(text@),
{
    let end: [u8; 1] = [0xFF];
    hasher.write(text.as_bytes());
    hasher.write(end.as_slice());
    assert(end@ =~= seq![0xFFu8]);
    assert(hasher@ =~= old(hasher)@ + text_record(text@));
}

/// Writes a text that may be missing to the hasher.
pub fn write_optional_text(hasher: &mut DefaultHasher, text: &Option<String>)
    ensures
        final(hasher)@ == old(hasher)@ + optional_text_record(text_of(*text)),
{
    match text {
        None => {
            let mark: [u8; 8] = [0, 0, 0, 0, 0, 0, 0, 0];
            hasher.write(mark.as_slice());
            assert(mark@ =~= absent_mark());
            assert(hasher@ =~= old(hasher)@ + optional_text_record(text_of(*text)));
        },
        Some(t) => {
            let mark: [u8; 8] = [1, 0, 0, 0, 0, 0, 0, 0];
            hasher.write(mark.as_slice());
            assert(mark@ =~= present_mark());
            write_text(hasher, t.as_str());
            assert(hasher@ =~= old(hasher)@ + optional_text_record(text_of(*text)));
        },
    }
}

fn digit_str(d: u64) -> (s: &'static str)
    requires
        d < 10,
    ensures
        s@ == seq![digit(d as nat)],
{
    proof {
        reveal_strlit("0");
        reveal_strlit("1");
        reveal_strlit("2");
        reveal_strlit("3");
        reveal_strlit("4");
        reveal_strlit("5");
        reveal_strlit("6");
        reveal_strlit("7");
        reveal_strlit("8");
        reveal_strlit("9");
    }
    let s = if d == 0 {
        "0"
    } else if d == 1 {
        "1"
    } else if d == 2 {
        "2"
    } else if d == 3 {
        "3"
    } else if d == 4 {
        "4"
    } else if d == 5 {
        "5"
    } else if d == 6 {
        "6"
    } else if d == 7 {
        "7"
    } else if d == 8 {
        "8"
    } else {
        "9"
    };
    assert(s@ =~= seq![digit(d as nat)]);
    s
}

/// Writes a number in decimal.
pub fn decimal_string(n: u64) -> (s: String)
    ensures
        s@ == decimal(n as nat),
    decreases n,
{
    if n < 10 {
        String::from_str(digit_str(n))
    } else {
        let mut s = decimal_string(n / 10);
        s.append(digit_str(n % 10));
        assert(s@ =~= decimal(n as nat));
        s
    }
}

/// The content hash of what was written to `hasher`.
pub fn finish_hash(hasher: &DefaultHasher) -> (hash: String)
    ensures
        hash@ == content_hash(hasher@),
{
    decimal_string(hasher.finish())
}

/// A number written in decimal has at least one digit.
pub proof fn lemma_decimal_not_empty(n: nat)
    ensures
        decimal(n).len() >= 1,
    decreases n,
{
    if n >= 10 {
        lemma_decimal_not_empty(n / 10);
    }
}

/// Two numbers with the same decimal writing are the same number.
pub proof fn lemma_decimal_injective(a: nat, b: nat)
    requires
        decimal(a) == decimal(b),
    ensures
        a == b,
    decreases a,
{
    if a < 10 && b < 10 {
        assert(decimal(a)[0] == digit(a));
        assert(decimal(b)[0] == digit(b));
    } else if a < 10 {
        lemma_decimal_not_empty(b / 10);
        assert(decimal(a).len() == 1);
        assert(decimal(b).len() == decimal(b / 10).len() + 1);
    } else if b < 10 {
        lemma_decimal_not_empty(a / 10);
        assert(decimal(b).len() == 1);
        assert(decimal(a).len() == decimal(a / 10).len() + 1);
    } else {
        let da = decimal(a / 10);
        let db = decimal(b / 10);
        assert(decimal(a).len() == da.len() + 1);
        assert(decimal(b).len() == db.len() + 1);
        assert(decimal(a)[da.len() as int] == digit(a % 10));
        assert(decimal(b)[db.len() as int] == digit(b % 10));
        assert(da =~= decimal(a).drop_last());
        assert(db =~= decimal(b).drop_last());
        lemma_decimal_injective(a / 10, b / 10);
        assert(digit(a % 10) == digit(b % 10));
        assert(a % 10 == b % 10);
        assert(a == 10 * (a / 10) + a % 10);
        assert(b == 10 * (b / 10) + b % 10);
    }
}

/// Two texts with the same record are the same text.
pub proof fn lemma_text_record_injective(a: Seq<char>, b: Seq<char>)
    requires
        text_record(a) == text_record(b),
    ensures
        a == b,
{
    assert(text_record(a)[0] == encode_utf8(a));
    assert(text_record(b)[0] == encode_utf8(b));
    encode_utf8_decode_utf8(a);
    encode_utf8_decode_utf8(b);
}

/// Two optional texts with the same record are the same.
pub proof fn lemma_optional_text_record_injective(a: Option<Seq<char>>, b: Option<Seq<char>>)
    requires
        optional_text_record(a) == optional_text_record(b),
    ensures
        a == b,
{
    match (a, b) {
        (Some(x), Some(y)) => {
            assert(optional_text_record(a)[1] == encode_utf8(x));
            assert(optional_text_record(b)[1] == encode_utf8(y));
            encode_utf8_decode_utf8(x);
            encode_utf8_decode_utf8(y);
        },
        (Some(x), None) => {
            assert(optional_text_record(a).len() == 3);
            assert(optional_text_record(b).len() == 1);
        },
        (None, Some(y)) => {
            assert(optional_text_record(a).len() == 1);
            assert(optional_text_record(b).len() == 3);
        },
        (None, None) => {},
    }
}

} // verus!
