//! Parsing of `"key,value"` secret strings.
//!
//! A secret string must hold exactly one comma: the key is everything
//! before it, the value everything after it.  No comma, or more than
//! one, is rejected.
use vstd::prelude::*;
use vstd::string::*;
use super::Secret;

verus! {

/// How many commas the string holds.
pub open spec fn comma_count(s: Seq<char>) -> nat
    decreases s.len(),
{
    if s.len() == 0 {
        0
    } else {
        comma_count(s.drop_last()) + if s.last() == ',' {
            1nat
        } else {
            0nat
        }
    }
}

/// The index of the first comma, or the length when there is none.
pub open spec fn first_comma(s: Seq<char>) -> int
    decreases s.len(),
{
    if s.len() == 0 {
        0
    } else if s[0] == ',' {
        0
    } else {
        1 + first_comma(s.drop_first())
    }
}

/// What a secret string parses to: defined exactly when the string
/// holds one comma; the key precedes it, the value follows it.
pub open spec fn parse_secret_spec(s: Seq<char>) -> Option<(Seq<char>, Seq<char>)> {
    if comma_count(s) == 1 {
        Some((s.take(first_comma(s)), s.skip(first_comma(s) + 1)))
    } else {
        None
    }
}

/// Why a secret string was rejected.
#[derive(Debug, Clone, PartialEq)]
pub enum SecretError {
    /// More than one comma.
    Incompatible,
    /// No comma at all; carries the offending input.
    NotFound(String),
}

impl SecretError {
    /// The operator-facing description of the rejection.
    pub fn message(&self) -> (r: String)
        ensures
            *self is Incompatible ==> r@ == "Key Value Pair for secret is incompatible"@,
            self matches SecretError::NotFound(t) ==> r@ == "Key or Value not found for "@ + t@,
    {
        match self {
            SecretError::Incompatible => "Key Value Pair for secret is incompatible".to_owned(),
            SecretError::NotFound(t) => "Key or Value not found for ".to_owned().concat(
                t.as_str(),
            ),
        }
    }
}

/// The outcome the receiver reports for a delivered secret.
#[derive(Debug, Clone, PartialEq)]
pub struct SecretResponse {
    pub status: Status,
}

/// Outcome tag for a delivered secret.  `Succes` is the wire spelling.
#[derive(Debug, Clone, PartialEq, Eq, Structural)]
pub enum Status {
    Failed,
    Succes,
}

proof fn lemma_first_comma(s: Seq<char>, i: int)
    requires
        0 <= i < s.len(),
        s[i] == ',',
        forall|j: int| 0 <= j < i ==> s[j] != ',',
    ensures
        first_comma(s) == i,
    decreases i,
{
    if i > 0 {
        lemma_first_comma(s.drop_first(), i - 1);
    }
}

proof fn lemma_comma_count_concat(a: Seq<char>, b: Seq<char>)
    ensures
        comma_count(a + b) == comma_count(a) + comma_count(b),
    decreases b.len(),
{
    if b.len() == 0 {
        assert(a + b =~= a);
    } else {
        lemma_comma_count_concat(a, b.drop_last());
        assert((a + b).drop_last() =~= a + b.drop_last());
        assert((a + b).last() == b.last());
    }
}

proof fn lemma_comma_count_zero(s: Seq<char>)
    requires
        comma_count(s) == 0,
    ensures
        forall|j: int| 0 <= j < s.len() ==> s[j] != ',',
    decreases s.len(),
{
    if s.len() > 0 {
        assert(comma_count(s.drop_last()) == 0);
        lemma_comma_count_zero(s.drop_last());
        assert forall|j: int| 0 <= j < s.len() implies s[j] != ',' by {
            if j < s.len() - 1 {
                assert(s.drop_last()[j] == s[j]);
            }
        }
    }
}

/// Law: parsing inverts assembly.  For any key and value free of commas,
/// the string `key ++ "," ++ value` parses back to exactly that pair.
pub proof fn lemma_secret_parse_round_trip(key: Seq<char>, value: Seq<char>)
    requires
        comma_count(key) == 0,
        comma_count(value) == 0,
    ensures
        parse_secret_spec(key + seq![','] + value) == Some((key, value)),
{
    let s = key + seq![','] + value;
    lemma_comma_count_concat(key, seq![',']);
    lemma_comma_count_concat(key + seq![','], value);
    assert(seq![','].drop_last() =~= Seq::<char>::empty());
    assert(comma_count(Seq::<char>::empty()) == 0);
    assert(seq![','].last() == ',');
    assert(comma_count(seq![',']) == 1);
    lemma_comma_count_zero(key);
    assert(s[key.len() as int] == ',');
    assert(forall|j: int| 0 <= j < key.len() ==> s[j] == key[j]);
    lemma_first_comma(s, key.len() as int);
    assert(s.take(key.len() as int) =~= key);
    assert(s.skip(key.len() as int + 1) =~= value);
}

/// Law: a string whose comma count is not exactly one is rejected.
pub proof fn lemma_secret_parse_rejects(s: Seq<char>)
    requires
        comma_count(s) != 1,
    ensures
        parse_secret_spec(s) is None,
{
}

impl Secret {
    /// Parse a `"key,value"` string.  Accepts exactly the strings with
    /// one comma; reports a missing comma and an excess of commas as
    /// distinct errors, as the sender surfaces them differently.
    pub fn secret_from_string(secret: String) -> (r: Result<Secret, SecretError>)
        ensures
            r is Ok <==> comma_count(secret@) == 1,
            r is Ok ==> Some(((r->Ok_0).key@, (r->Ok_0).value@)) == parse_secret_spec(secret@),
            comma_count(secret@) == 0 ==> (r matches Err(SecretError::NotFound(t)) && t@
                == secret@),
            comma_count(secret@) >= 2 ==> r == Err::<Secret, SecretError>(
                SecretError::Incompatible,
            ),
    {
        let s = secret.as_str();
        let n = s.unicode_len();
        let mut i: usize = 0;
        let mut cnt: usize = 0;
        let mut fc: usize = 0;
        while i < n
            invariant
                i <= n,
                n == s@.len(),
                s@ == secret@,
                cnt <= i,
                cnt == comma_count(s@.take(i as int)),
                cnt > 0 ==> fc < i && s@[fc as int] == ',' && (forall|j: int|
                    0 <= j < fc ==> s@[j] != ','),
                cnt == 0 ==> forall|j: int| 0 <= j < i ==> s@[j] != ',',
            decreases n - i,
        {
            let c = s.get_char(i);
            proof {
                assert(s@.take(i + 1 as int).drop_last() =~= s@.take(i as int));
                assert(s@.take(i + 1 as int).last() == s@[i as int]);
            }
            if c == ',' {
                if cnt == 0 {
                    fc = i;
                }
                cnt = cnt + 1;
            }
            i += 1;
        }
        proof {
            assert(s@.take(n as int) =~= s@);
        }
        if cnt == 1 {
            proof {
                lemma_first_comma(s@, fc as int);
            }
            let key = s.substring_char(0, fc).to_owned();
            let value = s.substring_char(fc + 1, n).to_owned();
            proof {
                assert(s@.subrange(0, fc as int) =~= s@.take(fc as int));
                assert(s@.subrange(fc + 1 as int, n as int) =~= s@.skip(fc + 1));
            }
            Ok(Secret { key, value })
        } else if cnt == 0 {
            Err(SecretError::NotFound(secret))
        } else {
            Err(SecretError::Incompatible)
        }
    }
}

} // verus!
