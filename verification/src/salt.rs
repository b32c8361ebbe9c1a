//! Session salts: the secret a registry hands to clients so that the
//! server can tell who they are.

use vstd::prelude::*;
use vstd::string::*;

verus! {

/// Number of characters in a salt.
pub const SALT_LENGTH: usize = 16;

/// An ASCII letter or digit.
pub open spec fn is_alphanumeric(c: char) -> bool {
    ('0' <= c <= '9') || ('a' <= c <= 'z') || ('A' <= c <= 'Z')
}

/// A salt: sixteen ASCII letters and digits.
pub open spec fn is_salt(s: Seq<char>) -> bool {
    &&& s.len() == SALT_LENGTH
    &&& forall|i: int| 0 <= i < s.len() ==> is_alphanumeric(#[trigger] s[i])
}

/// Draws `count` characters from `rand::thread_rng()` with
/// `rand::distributions::Alphanumeric`, which yields ASCII letters and
/// digits only. Which ones is left open: no two calls need agree. The
/// generator is seeded by the operating system on first use and panics
/// if that fails.
#[verifier::external_body]
fn random_alphanumeric(count: usize) -> (text: String)
    ensures
        text@.len() == count,
        forall|i: int| 0 <= i < text@.len() ==> is_alphanumeric(#[trigger] text@[i]),
{
    rand::Rng::sample_iter(rand::thread_rng(), &rand::distributions::Alphanumeric)
        .take(count)
        .collect()
}

/// A salt for this session, drawn at random.
pub fn fresh_salt() -> (salt: String)
    ensures
        is_salt(salt@),
{
    random_alphanumeric(SALT_LENGTH)
}

/// `s` with another first character: `A`, or `B` where it was `A`. The
/// empty text becomes `A`.
pub open spec fn respelled(s: Seq<char>) -> Seq<char> {
    if s.len() == 0 {
        seq!['A']
    } else if s[0] == 'A' {
        seq!['B'] + s.skip(1)
    } else {
        seq!['A'] + s.skip(1)
    }
}

/// A salt that is not `taken`: `candidate` itself where the two differ,
/// and else `candidate` with another first character. Registries must not
/// share a salt; this makes sure of it whatever was drawn.
pub fn distinct_from(taken: &String, candidate: String) -> (salt: String)
    ensures
        salt@ == if candidate@ != taken@ {
            candidate@
        } else {
            respelled(candidate@)
        },
        salt@ != taken@,
        is_salt(candidate@) ==> is_salt(salt@),
{
    if candidate != *taken {
        return candidate;
    }
    let text = candidate.as_str();
    let n = text.unicode_len();
    proof {
        reveal_strlit("A");
        reveal_strlit("B");
    }
    if n == 0 {
        let salt = String::from_str("A");
        assert(salt@ =~= respelled(candidate@));
        return salt;
    }
    let first = text.get_char(0);
    let mut salt = if first == 'A' {
        String::from_str("B")
    } else {
        String::from_str("A")
    };
    salt.append(text.substring_char(1, n));
    assert(salt@ =~= respelled(candidate@));
    assert(salt@[0] != taken@[0]);
    assert(salt@.len() == taken@.len());
    assert(is_salt(candidate@) ==> is_salt(salt@)) by {
        if is_salt(candidate@) {
            assert forall|i: int| 0 <= i < salt@.len() implies is_alphanumeric(
                #[trigger] salt@[i],
            ) by {
                if i > 0 {
                    assert(salt@[i] == candidate@[i]);
                }
            }
        }
    }
    salt
}

/// A salt for this session that differs from the salt `taken` of
/// another registry.
pub fn fresh_salt_unlike(taken: &String) -> (salt: String)
    ensures
        is_salt(salt@),
        salt@ != taken@,
{
    distinct_from(taken, fresh_salt())
}

} // verus!
