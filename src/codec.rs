//! The codec: JSON encode and decode, and decoding of string-valued request
//! parameters and multipart fields.
use vstd::prelude::*;
use vstd::string::StrSliceExecFns;
use crate::catalog::{Catalog, Variant, fits, is_signed, lemma_wrap_fitting, wrap, wrap_to};
use crate::json::{
    JsonNumber, JsonValue, int_to_json, is_json_string, json_int, number_as_i64, number_as_u64,
};
use crate::repr::EnumRepr;
use crate::text::str_eq;

verus! {

/// A decode failure, returned to the caller.
#[derive(Clone, Copy, Debug, PartialEq, Eq, Structural)]
pub enum DecodeError {
    /// The JSON value is not of the kind the representation expects.
    WrongType,
    /// No variant has this discriminant or name.
    InvalidValue,
    /// The parameter does not read as an integer of the representation's kind.
    InvalidFormat,
    /// The multipart field is absent.
    MissingInput,
}

/// The integer that the representation's accessor reads from a JSON
/// number: the signed 64-bit accessor for signed kinds, the unsigned one
/// for unsigned kinds.
pub open spec fn json_raw(k: EnumRepr, n: JsonNumber) -> Option<int> {
    if is_signed(k) {
        number_as_i64(n)
    } else {
        number_as_u64(n)
    }
}

pub open spec fn is_digit(c: char) -> bool {
    '0' <= c <= '9'
}

pub open spec fn digit_value(c: char) -> int {
    c as int - '0' as int
}

pub open spec fn all_digits(s: Seq<char>) -> bool {
    forall|i: int| 0 <= i < s.len() ==> is_digit(#[trigger] s[i])
}

/// The value of a string of decimal digits.
pub open spec fn digits_value(s: Seq<char>) -> int
    decreases s.len(),
{
    if s.len() == 0 {
        0
    } else {
        digits_value(s.drop_last()) * 10 + digit_value(s.last())
    }
}

/// A parameter read as an integer of kind `k`: an optional `+` (or `-`
/// for signed kinds) and one or more decimal digits, whose value fits.
pub open spec fn parsed_int(k: EnumRepr, s: Seq<char>) -> Option<int> {
    let neg = is_signed(k) && s.len() > 0 && s[0] == '-';
    let body = if s.len() > 0 && (s[0] == '+' || neg) {
        s.skip(1)
    } else {
        s
    };
    if body.len() == 0 || !all_digits(body) {
        None
    } else {
        let v = if neg {
            -digits_value(body)
        } else {
            digits_value(body)
        };
        if fits(k, v) {
            Some(v)
        } else {
            None
        }
    }
}

/// Reads a parameter as an integer of kind `k`.
pub fn parse_int(s: &str, k: EnumRepr) -> (r: Option<i128>)
    ensures
        match r {
            Some(v) => parsed_int(k, s@) == Some(v as int),
            None => parsed_int(k, s@) is None,
        },
{
    let n = s.unicode_len();
    let signed = match k {
        EnumRepr::I32 | EnumRepr::I64 => true,
        _ => false,
    };
    let mut start: usize = 0;
    let mut neg = false;
    if n > 0 {
        let c0 = s.get_char(0);
        if c0 == '+' {
            start = 1;
        } else if signed && c0 == '-' {
            start = 1;
            neg = true;
        }
    }
    let ghost body = if start == 1 {
        s@.skip(1)
    } else {
        s@
    };
    assert(body =~= s@.subrange(start as int, n as int));
    assert(neg == (is_signed(k) && s@.len() > 0 && s@[0] == '-'));
    assert(start == 1 <==> (s@.len() > 0 && (s@[0] == '+' || neg)));
    if start == n {
        return None;
    }
    let mut acc: u128 = 0;
    let mut big = false;
    let mut i: usize = start;
    assert(s@.subrange(start as int, start as int) =~= Seq::<char>::empty());
    while i < n
        invariant
            n == s@.len(),
            start <= i <= n,
            body == s@.subrange(start as int, n as int),
            neg == (is_signed(k) && s@.len() > 0 && s@[0] == '-'),
            start == 1 <==> (s@.len() > 0 && (s@[0] == '+' || neg)),
            start <= 1,
            body == if start == 1 { s@.skip(1) } else { s@ },
            all_digits(s@.subrange(start as int, i as int)),
            !big ==> acc == digits_value(s@.subrange(start as int, i as int)),
            !big ==> acc <= 0x1_0000_0000_0000_0000,
            big ==> digits_value(s@.subrange(start as int, i as int)) > 0x1_0000_0000_0000_0000,
            digits_value(s@.subrange(start as int, i as int)) >= 0,
        decreases n - i,
    {
        let ghost pre = s@.subrange(start as int, i as int);
        let ghost next = s@.subrange(start as int, i + 1);
        assert(next.drop_last() =~= pre);
        assert(next.last() == s@[i as int]);
        let c = s.get_char(i);
        if !('0' <= c && c <= '9') {
            assert(!all_digits(body)) by {
                assert(body[i - start] == c);
            }
            return None;
        }
        let d: u128 = (c as u32 - '0' as u32) as u128;
        if !big {
            let nv: u128 = acc * 10 + d;
            if nv > 0x1_0000_0000_0000_0000u128 {
                big = true;
            } else {
                acc = nv;
            }
        }
        assert(all_digits(next)) by {
            assert forall|j: int| 0 <= j < next.len() implies is_digit(#[trigger] next[j]) by {
                if j < pre.len() {
                    assert(next[j] == pre[j]);
                }
            }
        }
        i = i + 1;
    }
    assert(s@.subrange(start as int, n as int) =~= body);
    if big {
        return None;
    }
    let v: i128 = if neg {
        -(acc as i128)
    } else {
        acc as i128
    };
    let ok = match k {
        EnumRepr::I32 => -2147483648i128 <= v && v <= 2147483647i128,
        EnumRepr::I64 => -9223372036854775808i128 <= v && v <= 9223372036854775807i128,
        EnumRepr::U32 => 0 <= v && v <= 4294967295i128,
        EnumRepr::U64 => 0 <= v && v <= 18446744073709551615i128,
    };
    if ok {
        Some(v)
    } else {
        None
    }
}

impl Catalog {
    /// Variant `i` is the first with discriminant `d`.
    pub open spec fn first_with_disc(&self, d: int, i: int) -> bool {
        &&& 0 <= i < self.variants@.len()
        &&& self.variants@[i].discriminant == d
        &&& forall|j: int| 0 <= j < i ==> (#[trigger] self.variants@[j]).discriminant != d
    }

    /// Variant `i` is the first with canonical name `s`.
    pub open spec fn first_with_name(&self, s: Seq<char>, i: int) -> bool {
        &&& 0 <= i < self.variants@.len()
        &&& self.variants@[i].name@ == s
        &&& forall|j: int| 0 <= j < i ==> (#[trigger] self.variants@[j]).name@ != s
    }

    /// `r` is what the ordered scan for discriminant `d` gives.
    pub open spec fn disc_lookup(&self, d: int, r: Result<usize, DecodeError>) -> bool {
        match r {
            Ok(i) => self.first_with_disc(d, i as int),
            Err(e) => e == DecodeError::InvalidValue && forall|j: int|
                0 <= j < self.variants@.len() ==> (#[trigger] self.variants@[j]).discriminant != d,
        }
    }

    /// `r` is what the lookup of canonical name `s` gives.
    pub open spec fn name_lookup(&self, s: Seq<char>, r: Result<usize, DecodeError>) -> bool {
        match r {
            Ok(i) => self.first_with_name(s, i as int),
            Err(e) => e == DecodeError::InvalidValue && forall|j: int|
                0 <= j < self.variants@.len() ==> (#[trigger] self.variants@[j]).name@ != s,
        }
    }

    /// `r` is the decoding of the JSON value `v` (an absent value reads as null).
    pub open spec fn json_decoded(&self, v: Option<JsonValue>, r: Result<usize, DecodeError>) -> bool {
        let v = match v {
            Some(v) => v,
            None => JsonValue::Null,
        };
        match self.repr {
            Some(k) => match v {
                JsonValue::Number(n) => match json_raw(k, n) {
                    Some(raw) => self.disc_lookup(wrap(k, raw), r),
                    None => r == Err::<usize, DecodeError>(DecodeError::WrongType),
                },
                _ => r == Err::<usize, DecodeError>(DecodeError::WrongType),
            },
            None => match v {
                JsonValue::String(s) => self.name_lookup(s@, r),
                _ => r == Err::<usize, DecodeError>(DecodeError::WrongType),
            },
        }
    }

    /// `r` is the decoding of the parameter text `s`.
    pub open spec fn param_decoded(&self, s: Seq<char>, r: Result<usize, DecodeError>) -> bool {
        match self.repr {
            Some(k) => match parsed_int(k, s) {
                Some(v) => self.disc_lookup(v, r),
                None => r == Err::<usize, DecodeError>(DecodeError::InvalidFormat),
            },
            None => self.name_lookup(s, r),
        }
    }

    /// `v` is the JSON encoding of variant `i`: its discriminant as a number
    /// under an integer representation, else its canonical name as a string.
    pub open spec fn is_encoding(&self, i: int, v: JsonValue) -> bool {
        match self.repr {
            Some(_) => v == json_int(self.variants@[i].discriminant as int),
            None => is_json_string(v, self.variants@[i].name@),
        }
    }

    fn find_disc(&self, d: i128) -> (r: Result<usize, DecodeError>)
        ensures
            self.disc_lookup(d as int, r),
    {
        let mut i: usize = 0;
        while i < self.variants.len()
            invariant
                i <= self.variants@.len(),
                forall|j: int| 0 <= j < i ==> (#[trigger] self.variants@[j]).discriminant != d,
            decreases self.variants.len() - i,
        {
            if self.variants[i].discriminant == d {
                return Ok(i);
            }
            i = i + 1;
        }
        Err(DecodeError::InvalidValue)
    }

    fn find_name(&self, s: &str) -> (r: Result<usize, DecodeError>)
        ensures
            self.name_lookup(s@, r),
    {
        let mut i: usize = 0;
        while i < self.variants.len()
            invariant
                i <= self.variants@.len(),
                forall|j: int| 0 <= j < i ==> (#[trigger] self.variants@[j]).name@ != s@,
            decreases self.variants.len() - i,
        {
            if str_eq(self.variants[i].name.as_str(), s) {
                return Ok(i);
            }
            i = i + 1;
        }
        Err(DecodeError::InvalidValue)
    }

    /// Decodes a JSON value into the position of its variant. Under an integer
/// representation the number read is cast to the integer kind before the
/// scan.
    pub fn decode_json(&self, value: &Option<JsonValue>) -> (r: Result<usize, DecodeError>)
        ensures
            self.json_decoded(*value, r),
    {
        match value {
            Some(v) => self.decode_json_value(v),
            None => self.decode_json_value(&JsonValue::Null),
        }
    }

    fn decode_json_value(&self, v: &JsonValue) -> (r: Result<usize, DecodeError>)
        ensures
            self.json_decoded(Some(*v), r),
    {
        match self.repr {
            Some(k) => match v {
                JsonValue::Number(n) => {
                    let raw: Option<i128> = match k {
                        EnumRepr::I32 | EnumRepr::I64 => match n.as_i64() {
                            Some(x) => Some(x as i128),
                            None => None,
                        },
                        EnumRepr::U32 | EnumRepr::U64 => match n.as_u64() {
                            Some(x) => Some(x as i128),
                            None => None,
                        },
                    };
                    match raw {
                        Some(x) => self.find_disc(wrap_to(k, x)),
                        None => Err(DecodeError::WrongType),
                    }
                },
                _ => Err(DecodeError::WrongType),
            },
            None => match v {
                JsonValue::String(s) => self.find_name(s.as_str()),
                _ => Err(DecodeError::WrongType),
            },
        }
    }

    /// Encodes variant `i` as JSON.
    pub fn encode_json(&self, i: usize) -> (r: JsonValue)
        requires
            self.wf(),
            i < self.variants@.len(),
        ensures
            self.is_encoding(i as int, r),
    {
        let v: &Variant = &self.variants[i];
        match self.repr {
            Some(_) => {
                assert(fits(self.repr->0, self.variants@[i as int].discriminant as int));
                int_to_json(v.discriminant)
            },
            None => JsonValue::String(v.name.clone()),
        }
    }

    /// Decodes a string-valued request parameter into the position of its
    /// variant.
    pub fn decode_parameter(&self, value: &str) -> (r: Result<usize, DecodeError>)
        ensures
            self.param_decoded(value@, r),
    {
        match self.repr {
            Some(k) => match parse_int(value, k) {
                Some(v) => self.find_disc(v),
                None => Err(DecodeError::InvalidFormat),
            },
            None => self.find_name(value),
        }
    }

    /// Decodes the text of a multipart field; an absent field is missing
    /// input.
    pub fn decode_multipart(&self, field: &Option<String>) -> (r: Result<usize, DecodeError>)
        ensures
            match *field {
                Some(t) => self.param_decoded(t@, r),
                None => r == Err::<usize, DecodeError>(DecodeError::MissingInput),
            },
    {
        match field {
            Some(t) => self.decode_parameter(t.as_str()),
            None => Err(DecodeError::MissingInput),
        }
    }
}

impl Catalog {
    /// No two variants share a discriminant (integer representation) or a
    /// canonical name (string representation).
    pub open spec fn distinct(&self) -> bool {
        forall|i: int, j: int|
            0 <= i < self.variants@.len() && 0 <= j < self.variants@.len() && i != j ==> match self.repr {
                Some(_) => (#[trigger] self.variants@[i]).discriminant != (
                #[trigger] self.variants@[j]).discriminant,
                None => self.variants@[i].name@ != self.variants@[j].name@,
            }
    }

    /// The parameter text of variant `i`: its discriminant in decimal under
    /// an integer representation, else its canonical name.
    pub open spec fn param_text(&self, i: int) -> Seq<char> {
        match self.repr {
            Some(_) => decimal(self.variants@[i].discriminant as int),
            None => self.variants@[i].name@,
        }
    }
}

/// The character of a decimal digit.
pub open spec fn digit_char(n: nat) -> char {
    if n == 0 {
        '0'
    } else if n == 1 {
        '1'
    } else if n == 2 {
        '2'
    } else if n == 3 {
        '3'
    } else if n == 4 {
        '4'
    } else if n == 5 {
        '5'
    } else if n == 6 {
        '6'
    } else if n == 7 {
        '7'
    } else if n == 8 {
        '8'
    } else {
        '9'
    }
}

/// The decimal digits of `n`, without leading zeros.
pub open spec fn nat_digits(n: nat) -> Seq<char>
    decreases n,
{
    if n < 10 {
        seq![digit_char(n)]
    } else {
        nat_digits(n / 10).push(digit_char(n % 10))
    }
}

/// The decimal text of `d`, with a leading `-` when negative.
pub open spec fn decimal(d: int) -> Seq<char> {
    if d < 0 {
        seq!['-'] + nat_digits((-d) as nat)
    } else {
        nat_digits(d as nat)
    }
}

proof fn lemma_digit_char(m: nat)
    requires
        m < 10,
    ensures
        is_digit(digit_char(m)),
        digit_value(digit_char(m)) == m,
{
}

proof fn lemma_nat_digits(n: nat)
    ensures
        nat_digits(n).len() > 0,
        all_digits(nat_digits(n)),
        digits_value(nat_digits(n)) == n,
    decreases n,
{
    if n < 10 {
        let s = nat_digits(n);
        lemma_digit_char(n);
        assert(s.drop_last() =~= Seq::<char>::empty());
        assert(digits_value(Seq::<char>::empty()) == 0);
        assert(s.last() == digit_char(n));
    } else {
        lemma_nat_digits(n / 10);
        let p = nat_digits(n / 10);
        let s = nat_digits(n);
        assert(s.drop_last() =~= p);
        lemma_digit_char(n % 10);
        assert(n == (n / 10) * 10 + n % 10) by (nonlinear_arith);
        assert(is_digit(s[s.len() - 1]));
        assert forall|i: int| 0 <= i < s.len() implies is_digit(#[trigger] s[i]) by {
            if i < p.len() {
                assert(s[i] == p[i]);
            }
        }
        assert(s.last() == digit_char(n % 10));
        assert(digits_value(s) == digits_value(p) * 10 + digit_value(s.last()));
    }
}

proof fn lemma_decimal_parses(k: EnumRepr, d: int)
    requires
        fits(k, d),
    ensures
        parsed_int(k, decimal(d)) == Some(d),
{
    let s = decimal(d);
    if d < 0 {
        lemma_nat_digits((-d) as nat);
        assert(s.skip(1) =~= nat_digits((-d) as nat));
    } else {
        lemma_nat_digits(d as nat);
        let t = nat_digits(d as nat);
        assert(is_digit(t[0]));
    }
}

/// Decoding the JSON encoding of any variant gives that variant back, for a
/// catalog whose variants are told apart by their wire values.
pub proof fn json_round_trip(c: Catalog, i: int, v: JsonValue, r: Result<usize, DecodeError>)
    requires
        c.wf(),
        c.distinct(),
        0 <= i < c.variants@.len(),
        c.is_encoding(i, v),
        c.json_decoded(Some(v), r),
    ensures
        r == Ok::<usize, DecodeError>(i as usize),
{
    let vi = c.variants@[i];
    match c.repr {
        Some(k) => {
            let d = vi.discriminant as int;
            assert(fits(k, d));
            match v {
                JsonValue::Number(n) => {
                    assert(json_raw(k, n) == Some(d));
                    lemma_wrap_fitting(k, d);
                },
                _ => {},
            }
            assert(c.disc_lookup(d, r));
        },
        None => {
            assert(c.name_lookup(vi.name@, r));
        },
    }
    match r {
        Ok(j) => {
            if (j as int) < i {
            } else if (j as int) > i {
                assert(c.variants@[i] == vi);
            }
        },
        Err(_) => {
            assert(c.variants@[i] == vi);
        },
    }
}

/// Decoding the parameter text of any variant gives that variant back, for
/// a catalog whose variants are told apart by their wire values.
pub proof fn param_round_trip(c: Catalog, i: int, r: Result<usize, DecodeError>)
    requires
        c.wf(),
        c.distinct(),
        0 <= i < c.variants@.len(),
        c.param_decoded(c.param_text(i), r),
    ensures
        r == Ok::<usize, DecodeError>(i as usize),
{
    let vi = c.variants@[i];
    match c.repr {
        Some(k) => {
            let d = vi.discriminant as int;
            assert(fits(k, d));
            lemma_decimal_parses(k, d);
            assert(c.disc_lookup(d, r));
        },
        None => {
            assert(c.name_lookup(vi.name@, r));
        },
    }
    match r {
        Ok(j) => {
            if (j as int) < i {
            } else if (j as int) > i {
                assert(c.variants@[i] == vi);
            }
        },
        Err(_) => {
            assert(c.variants@[i] == vi);
        },
    }
}

} // verus!
