//! Bulk handling of `"key,value"` secret strings: parsing a list while
//! dropping malformed entries, and validating a list into either the
//! string itself or its rejection text.
use vstd::prelude::*;
use vstd::string::*;
use crate::item::secret::SecretError;
use crate::item::secret::comma_count;
use crate::item::secret::parse_secret_spec;

verus! {

/// A key/value secret.
#[derive(Debug, Clone, PartialEq)]
pub struct Secret {
    pub key: String,
    pub value: String,
}

/// The outcome reported for a delivered secret.
#[derive(Debug, Clone, PartialEq)]
pub struct SecretResponse {
    pub status: Status,
}

/// Outcome tag for a delivered secret.
#[derive(Debug, Clone, PartialEq, Eq, Structural)]
pub enum Status {
    FAILED,
    SUCCESS,
}

/// The key/value pairs of exactly the well-formed strings of the list,
/// in order.
pub open spec fn parsed_pairs(v: Seq<String>) -> Seq<(Seq<char>, Seq<char>)>
    decreases v.len(),
{
    if v.len() == 0 {
        Seq::empty()
    } else {
        let rest = parsed_pairs(v.drop_last());
        if comma_count(v.last()@) == 1 {
            rest.push(parse_secret_spec(v.last()@)->0)
        } else {
            rest
        }
    }
}

/// What validating one secret string yields: the string itself when it
/// is well formed, its rejection text otherwise.
pub open spec fn validated_one(s: Seq<char>) -> Seq<char> {
    if comma_count(s) == 1 {
        s
    } else if comma_count(s) > 1 {
        "Secret must contain just key and value. "@ + s + " violates that rule"@
    } else {
        "Secret cannot be empty. Please check your arguments"@
    }
}

impl Secret {
    /// Parse each string of the list, keeping the well-formed ones in
    /// order and dropping the rest.
    #[verifier::loop_isolation(false)]
    pub fn secrets_from_string(secrets: Vec<String>) -> (r: Vec<Secret>)
        ensures
            r@.len() == parsed_pairs(secrets@).len(),
            forall|i: int|
                0 <= i < r@.len() ==> ((#[trigger] r@[i]).key@, r@[i].value@) == parsed_pairs(
                    secrets@,
                )[i],
    {
        let mut out: Vec<Secret> = Vec::new();
        let n = secrets.len();
        let mut i: usize = 0;
        while i < n
            invariant
                i <= n,
                out@.len() == parsed_pairs(secrets@.take(i as int)).len(),
                forall|j: int|
                    0 <= j < out@.len() ==> ((#[trigger] out@[j]).key@, out@[j].value@)
                        == parsed_pairs(secrets@.take(i as int))[j],
            decreases n - i,
        {
            proof {
                assert(secrets@.take(i + 1 as int).drop_last() =~= secrets@.take(i as int));
                assert(secrets@.take(i + 1 as int).last() == secrets@[i as int]);
            }
            match Secret::secret_from_string(secrets[i].clone()) {
                Result::Ok(s) => {
                    out.push(s);
                },
                Result::Err(_) => {},
            }
            i += 1;
        }
        proof {
            assert(secrets@.take(n as int) =~= secrets@);
        }
        out
    }

    /// Parse one `"key,value"` string: exactly the strings with one
    /// comma are accepted.
    pub fn secret_from_string(secret: String) -> (r: Result<Secret, SecretError>)
        ensures
            r is Ok <==> comma_count(secret@) == 1,
            r is Ok ==> Some(((r->Ok_0).key@, (r->Ok_0).value@)) == parse_secret_spec(secret@),
            comma_count(secret@) == 0 ==> (r matches Err(SecretError::NotFound(t)) && t@
                == secret@),
            comma_count(secret@) >= 2 ==> r == Err::<Secret, SecretError>(
                SecretError::Incompatible,
            ),
    {
        match crate::item::Secret::secret_from_string(secret) {
            Result::Ok(s) => Result::Ok(Secret { key: s.key, value: s.value }),
            Result::Err(e) => Result::Err(e),
        }
    }

    /// Validate each string of the list: a well-formed string stays as
    /// it is; a malformed one is replaced by its rejection text.  The
    /// list always comes back whole, one entry per input.
    #[verifier::loop_isolation(false)]
    pub fn validate_secrets(secrets: Vec<String>) -> (r: Result<Vec<String>, SecretError>)
        ensures
            r is Ok,
            r->Ok_0@.len() == secrets@.len(),
            forall|i: int|
                0 <= i < secrets@.len() ==> (#[trigger] r->Ok_0@[i])@ == validated_one(
                    secrets@[i]@,
                ),
    {
        let mut out: Vec<String> = Vec::new();
        let n = secrets.len();
        let mut i: usize = 0;
        while i < n
            invariant
                i <= n,
                out@.len() == i,
                forall|j: int|
                    0 <= j < i ==> (#[trigger] out@[j])@ == validated_one(secrets@[j]@),
            decreases n - i,
        {
            let s = secrets[i].clone();
            match Secret::secret_from_string(s) {
                Result::Ok(_) => {
                    out.push(secrets[i].clone());
                },
                Result::Err(SecretError::Incompatible) => {
                    out.push(
                        "Secret must contain just key and value. ".to_owned().concat(
                            secrets[i].as_str(),
                        ).concat(" violates that rule"),
                    );
                },
                Result::Err(SecretError::NotFound(_)) => {
                    out.push("Secret cannot be empty. Please check your arguments".to_owned());
                },
            }
            i += 1;
        }
        Result::Ok(out)
    }
}

} // verus!
