use vstd::bytes::{
    lemma_auto_spec_u128_to_from_le_bytes, spec_u128_from_le_bytes, spec_u128_to_le_bytes,
    u128_from_le_bytes, u128_to_le_bytes,
};
use rand_chacha::ChaCha8Rng;
use rand_core::RngCore;
use vstd::prelude::*;

verus! {

/// A decimal digit character.
pub open spec fn is_digit(c: char) -> bool {
    48 <= (c as u32) && (c as u32) <= 57
}

/// The value of a digit character.
pub open spec fn digit_value(c: char) -> nat {
    ((c as u32) - 48) as nat
}

/// The character of a digit `d < 10`.
pub open spec fn digit_char(d: nat) -> char {
    ((d + 48) as u8) as char
}

/// Every character of `s` is a decimal digit.
pub open spec fn all_digits(s: Seq<char>) -> bool {
    forall|i: int| 0 <= i < s.len() ==> #[trigger] is_digit(s[i])
}

/// The number that the digit string `s` denotes, most significant digit first.
pub open spec fn decimal_value(s: Seq<char>) -> nat
    decreases s.len(),
{
    if s.len() == 0 {
        0
    } else {
        decimal_value(s.drop_last()) * 10 + digit_value(s.last())
    }
}

/// The canonical decimal text of `n`: no sign and no leading zero.
pub open spec fn decimal_of(n: nat) -> Seq<char>
    decreases n,
{
    if n < 10 {
        seq![digit_char(n)]
    } else {
        decimal_of(n / 10).push(digit_char(n % 10))
    }
}

/// The digits of a cookie value: the text without one optional leading `+`.
pub open spec fn unsigned_digits(s: Seq<char>) -> Seq<char> {
    if s.len() > 0 && s[0] == '+' {
        s.drop_first()
    } else {
        s
    }
}

/// `s` is the decimal text of an unsigned 128-bit integer: an optional `+`,
/// then at least one digit, with a value that fits in 128 bits.
pub open spec fn is_token_text(s: Seq<char>) -> bool {
    let d = unsigned_digits(s);
    &&& d.len() > 0
    &&& all_digits(d)
    &&& decimal_value(d) <= u128::MAX
}

/// The integer that the token text `s` denotes.
pub open spec fn token_text_value(s: Seq<char>) -> nat {
    decimal_value(unsigned_digits(s))
}

/// The character of a digit is a digit of that value.
proof fn lemma_digit_char(d: nat)
    requires
        d < 10,
    ensures
        is_digit(digit_char(d)),
        digit_value(digit_char(d)) == d,
{
    assert(((d + 48) as u8) as char as u32 == d + 48);
}

/// The canonical text is a digit string that denotes `n`.
pub proof fn lemma_decimal_of(n: nat)
    ensures
        decimal_of(n).len() > 0,
        all_digits(decimal_of(n)),
        decimal_value(decimal_of(n)) == n,
    decreases n,
{
    lemma_digit_char(n % 10);
    if n < 10 {
        let s = decimal_of(n);
        assert(s.drop_last() =~= Seq::<char>::empty());
        assert(decimal_value(Seq::<char>::empty()) == 0);
    } else {
        lemma_decimal_of(n / 10);
        let s = decimal_of(n);
        assert(s.drop_last() =~= decimal_of(n / 10));
        assert forall|i: int| 0 <= i < s.len() implies #[trigger] is_digit(s[i]) by {
            if i < s.len() - 1 {
                assert(s[i] == decimal_of(n / 10)[i]);
            }
        }
    }
}

/// A longer prefix of a digit string never denotes a smaller number.
proof fn lemma_prefix_value_grows(s: Seq<char>, i: int, j: int)
    requires
        0 <= i <= j <= s.len(),
    ensures
        decimal_value(s.take(i)) <= decimal_value(s.take(j)),
    decreases j - i,
{
    if i < j {
        lemma_prefix_value_grows(s, i, j - 1);
        assert(s.take(j).drop_last() =~= s.take(j - 1));
    }
}

#[verifier::external_type_specification]
#[verifier::external_body]
pub struct ExChaCha8Rng(ChaCha8Rng);

/// Relies on `RngCore::fill_bytes` of `rand_chacha::ChaCha8Rng`: the next 16
/// bytes of the generator's stream.
#[verifier::external_body]
fn next_16_bytes(random: &mut ChaCha8Rng) -> [u8; 16] {
    let mut bytes = [0u8; 16];
    random.fill_bytes(&mut bytes);
    bytes
}

/// A session credential: 128 bits drawn from a cryptographically secure
/// generator. It has three forms: this value, its cookie text and its
/// database bytes.
#[derive(Clone, Copy, Debug, PartialEq, Eq, Structural)]
pub struct SessionToken(pub u128);

/// A cookie value that is not the decimal text of a 128-bit unsigned integer.
#[derive(Clone, Copy, Debug, PartialEq, Eq, Structural)]
pub struct TokenParseError;

impl SessionToken {
    /// The cookie form of this token.
    pub open spec fn cookie_view(self) -> Seq<char> {
        decimal_of(self.0 as nat)
    }

    /// The database form of this token: its 16 little-endian bytes.
    pub open spec fn database_view(self) -> Seq<u8> {
        spec_u128_to_le_bytes(self.0)
    }

    /// A fresh token from the next 16 bytes of the shared generator, which
    /// was seeded once from the operating system's entropy source. The token
    /// is the little-endian reading of those bytes, and its database form is
    /// the bytes themselves; which bytes come is the generator's matter, so no
    /// value is excluded.
    pub fn generate_new(random: &mut ChaCha8Rng) -> (r: SessionToken)
        ensures
            exists|bytes: Seq<u8>|
                {
                    &&& bytes.len() == 16
                    &&& r.0 == spec_u128_from_le_bytes(bytes)
                    &&& r.database_view() == bytes
                },
    {
        let bytes = next_16_bytes(random);
        let r = SessionToken::from_random_bytes(bytes);
        proof {
            lemma_auto_spec_u128_to_from_le_bytes();
            assert(bytes@.len() == 16);
            assert(r.database_view() == bytes@);
        }
        r
    }

    /// The token whose value is the little-endian reading of the 16 `bytes`
    /// that a secure generator produced.
    pub fn from_random_bytes(bytes: [u8; 16]) -> (r: SessionToken)
        ensures
            r.0 == spec_u128_from_le_bytes(bytes@),
    {
        SessionToken(u128_from_le_bytes(bytes.as_slice()))
    }

    /// The decimal text of the token, as it is stored in the client's cookie.
    pub fn into_cookie_value(self) -> (r: String)
        ensures
            r@ == self.cookie_view(),
            is_token_text(r@),
            token_text_value(r@) == self.0,
    {
        let mut out = String::new();
        push_decimal(self.0, &mut out);
        proof {
            assert(out@ =~= self.cookie_view());
            lemma_cookie_round_trip(self);
        }
        out
    }

    /// The 16 little-endian bytes of the token, its primary key in the
    /// session table.
    pub fn into_database_value(self) -> (r: Vec<u8>)
        ensures
            r@ == self.database_view(),
            r@.len() == 16,
            spec_u128_from_le_bytes(r@) == self.0,
    {
        proof {
            lemma_database_round_trip(self);
        }
        u128_to_le_bytes(self.0)
    }

    /// The token whose database form is `bytes`, or `None` when `bytes` is
    /// not 16 bytes long.
    pub fn from_database_value(bytes: &[u8]) -> (r: Option<SessionToken>)
        ensures
            bytes@.len() == 16 <==> r is Some,
            r matches Some(t) ==> t.database_view() == bytes@ && t.0 == spec_u128_from_le_bytes(
                bytes@,
            ),
    {
        if bytes.len() == 16 {
            proof {
                lemma_auto_spec_u128_to_from_le_bytes();
            }
            Some(SessionToken(u128_from_le_bytes(bytes)))
        } else {
            None
        }
    }

    /// Reads a token back from its cookie text; any text that is not the
    /// decimal form of a 128-bit unsigned integer is refused.
    pub fn from_cookie_value(value: &str) -> (r: Result<SessionToken, TokenParseError>)
        ensures
            r is Ok <==> is_token_text(value@),
            r matches Ok(t) ==> t.0 == token_text_value(value@),
    {
        let n = value.unicode_len();
        let ghost ds = unsigned_digits(value@);
        let mut start: usize = 0;
        if n > 0 && value.get_char(0) == '+' {
            start = 1;
        }
        assert(ds =~= value@.subrange(start as int, n as int));
        if start == n {
            return Err(TokenParseError);
        }
        let mut i: usize = start;
        let mut v: u128 = 0;
        assert(ds.take(0) =~= Seq::<char>::empty());
        while i < n
            invariant
                start <= i <= n,
                n == value@.len(),
                ds == unsigned_digits(value@),
                ds =~= value@.subrange(start as int, n as int),
                all_digits(ds.take(i - start)),
                v == decimal_value(ds.take(i - start)),
            decreases n - i,
        {
            let c = value.get_char(i);
            let k = i - start;
            assert(ds[k as int] == c);
            let cv = c as u32;
            if cv < 48 || cv > 57 {
                assert(!is_digit(ds[k as int]));
                assert(!all_digits(ds));
                return Err(TokenParseError);
            }
            let d = (cv - 48) as u128;
            assert(ds.take(k + 1).drop_last() =~= ds.take(k as int));
            assert(ds.take(k + 1).last() == c);
            assert(decimal_value(ds.take(k + 1)) == v * 10 + d);
            match v.checked_mul(10) {
                None => {
                    proof {
                        lemma_prefix_value_grows(ds, k + 1, ds.len() as int);
                        assert(ds.take(ds.len() as int) =~= ds);
                        assert(decimal_value(ds) > u128::MAX);
                    }
                    return Err(TokenParseError);
                },
                Some(m) => match m.checked_add(d) {
                    None => {
                        proof {
                            lemma_prefix_value_grows(ds, k + 1, ds.len() as int);
                            assert(ds.take(ds.len() as int) =~= ds);
                        }
                        return Err(TokenParseError);
                    },
                    Some(w) => {
                        v = w;
                    },
                },
            }
            assert forall|j: int| 0 <= j < ds.take(k + 1).len() implies #[trigger] is_digit(
                ds.take(k + 1)[j],
            ) by {
                if j < k {
                    assert(ds.take(k + 1)[j] == ds.take(k as int)[j]);
                }
            }
            i = i + 1;
        }
        assert(ds.take(ds.len() as int) =~= ds);
        Ok(SessionToken(v))
    }

    /// Reads a token back from its cookie text, as `from_cookie_value` does:
    /// a malformed or hostile value is an error, never a panic.
    pub fn to_token(value: String) -> (r: Result<SessionToken, TokenParseError>)
        ensures
            r is Ok <==> is_token_text(value@),
            r matches Ok(t) ==> t.0 == token_text_value(value@),
    {
        SessionToken::from_cookie_value(value.as_str())
    }
}

/// Appends the canonical decimal text of `n` to `out`.
fn push_decimal(n: u128, out: &mut String)
    ensures
        final(out)@ == old(out)@ + decimal_of(n as nat),
    decreases n,
{
    if n >= 10 {
        push_decimal(n / 10, out);
    }
    out.append(digit_text(n % 10));
    assert(out@ =~= old(out)@ + decimal_of(n as nat));
}

/// The one-character text of the digit `d`.
fn digit_text(d: u128) -> (r: &'static str)
    requires
        d < 10,
    ensures
        r@ == seq![digit_char(d as nat)],
{
    let text = if d == 0 {
        proof {
            reveal_strlit("0");
        }
        "0"
    } else if d == 1 {
        proof {
            reveal_strlit("1");
        }
        "1"
    } else if d == 2 {
        proof {
            reveal_strlit("2");
        }
        "2"
    } else if d == 3 {
        proof {
            reveal_strlit("3");
        }
        "3"
    } else if d == 4 {
        proof {
            reveal_strlit("4");
        }
        "4"
    } else if d == 5 {
        proof {
            reveal_strlit("5");
        }
        "5"
    } else if d == 6 {
        proof {
            reveal_strlit("6");
        }
        "6"
    } else if d == 7 {
        proof {
            reveal_strlit("7");
        }
        "7"
    } else if d == 8 {
        proof {
            reveal_strlit("8");
        }
        "8"
    } else {
        proof {
            reveal_strlit("9");
        }
        "9"
    };
    assert(text@ =~= seq![digit_char(d as nat)]);
    text
}

/// Reading the cookie text of a token gives the token back.
pub proof fn lemma_cookie_round_trip(t: SessionToken)
    ensures
        is_token_text(t.cookie_view()),
        token_text_value(t.cookie_view()) == t.0,
{
    lemma_decimal_of(t.0 as nat);
    let s = t.cookie_view();
    assert(is_digit(s[0]));
    assert(unsigned_digits(s) == s);
}

/// Reading the database bytes of a token gives the token back.
pub proof fn lemma_database_round_trip(t: SessionToken)
    ensures
        t.database_view().len() == 16,
        spec_u128_from_le_bytes(t.database_view()) == t.0,
{
    lemma_auto_spec_u128_to_from_le_bytes();
    assert(spec_u128_to_le_bytes(t.0).len() == 16);
}

/// Distinct tokens have distinct cookie texts and distinct database bytes:
/// both forms keep all 128 bits.
pub proof fn lemma_encodings_injective(t1: SessionToken, t2: SessionToken)
    requires
        t1.0 != t2.0,
    ensures
        t1.cookie_view() != t2.cookie_view(),
        t1.database_view() != t2.database_view(),
{
    lemma_cookie_round_trip(t1);
    lemma_cookie_round_trip(t2);
    lemma_database_round_trip(t1);
    lemma_database_round_trip(t2);
}

} // verus!
