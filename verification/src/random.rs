//! Random texts.
use vstd::prelude::*;

verus! {

/// A letter or digit of ASCII.
pub open spec fn is_alphanumeric(c: char) -> bool {
    'a' <= c <= 'z' || 'A' <= c <= 'Z' || '0' <= c <= '9'
}

/// Draws one character with `rand::Rng::sample` from `rand::distr::Alphanumeric`, with the
/// generator of the thread, which the system seeds. The claim is only that it is a letter or digit
/// of ASCII: which one is left to chance.
#[verifier::external_body]
fn random_character() -> (r: char)
    ensures
        is_alphanumeric(r),
{
    char::from(rand::Rng::sample(&mut rand::rng(), rand::distr::Alphanumeric))
}

/// A text of the given length, of letters and digits that chance draws.
pub fn random_alphanumeric(len: usize) -> (r: String)
    ensures
        r@.len() == len,
        forall|i: int| 0 <= i < r@.len() ==> is_alphanumeric(#[trigger] r@[i]),
{
    let mut random = String::new();
    let mut n: usize = 0;
    while n < len
        invariant
            n <= len,
            random@.len() == n,
            forall|i: int| 0 <= i < n ==> is_alphanumeric(#[trigger] random@[i]),
        decreases len - n,
    {
        random.push(random_character());
        n += 1;
    }
    random
}

/// Letters and digits of ASCII are just those.
pub proof fn law_alphanumeric(c: char)
    ensures
        is_alphanumeric(c) <==> 0x30 <= c as int <= 0x39 || 0x41 <= c as int <= 0x5a || 0x61 <= c as int
            <= 0x7a,
{
}

} // verus!
