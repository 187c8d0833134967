//! Preparing the registration of a missing player.
//!
//! A player registered under index `N` is named `PlayerN` and is given a
//! freshly drawn secret token; the remote registration call then assigns
//! the team and the public id.

use vstd::prelude::*;

use crate::roster::space_free;
use crate::text::is_digit;
use crate::text::lemma_decimal_is_digits;
use crate::text::spec_decimal;
use crate::text::u64_to_decimal;

verus! {

/// The display name for the player with an index: `Player` followed by
/// the decimal index.
pub open spec fn spec_player_name(idx: nat) -> Seq<char> {
    "Player"@ + spec_decimal(idx)
}

/// Renders the display name for the player with this index.
pub fn player_name_for_index(idx: usize) -> (r: String)
    ensures
        r@ == spec_player_name(idx as nat),
{
    let mut s: String = "Player".to_owned();
    let digits = u64_to_decimal(idx as u64);
    s.append(digits.as_str());
    proof {
        assert(s@ =~= spec_player_name(idx as nat));
    }
    s
}

/// A derived name is space-free, so it survives the roster line format
/// unchanged: `Player` holds no space and the digits that follow are
/// digits.
pub proof fn lemma_player_name_space_free(idx: nat)
    ensures
        space_free(spec_player_name(idx)),
{
    reveal_strlit("Player");
    lemma_decimal_is_digits(idx);
    let s = spec_player_name(idx);
    assert forall|i: int| 0 <= i < s.len() implies #[trigger] s[i] != ' ' by {
        if i >= "Player"@.len() {
            assert(is_digit(spec_decimal(idx)[i - "Player"@.len()]));
        }
    }
}

/// Relies on `uuid::Uuid::new_v4` and its `Display` form: a fresh random
/// identifier, rendered hyphenated as exactly 36 characters, each a
/// lowercase hexadecimal digit or a hyphen — in particular never a space
/// or a line break, so the value survives the roster line format. The
/// value is random, so nothing but its shape is promised.
#[verifier::external_body]
fn fresh_secret() -> (r: String)
    ensures
        r@.len() == 36,
        forall|i: int| 0 <= i < r@.len() ==> #[trigger] r@[i] != ' ' && r@[i] != '\n',
{
    uuid::Uuid::new_v4().to_string()
}

/// What a registration call needs for one missing player: its index, the
/// display name derived from the index, and a fresh secret token.
pub struct RegistrationRequest {
    pub idx: usize,
    pub name: String,
    pub secret: String,
}

/// Prepares the registration of the player with this index: the name is
/// `Player` followed by the index, the secret a freshly drawn
/// 36-character token. Both are space-free, so a roster line writes them
/// losslessly.
pub fn new_registration(idx: usize) -> (r: RegistrationRequest)
    ensures
        r.idx == idx,
        r.name@ == spec_player_name(idx as nat),
        space_free(r.name@),
        r.secret@.len() == 36,
        space_free(r.secret@),
{
    proof {
        lemma_player_name_space_free(idx as nat);
    }
    RegistrationRequest { idx, name: player_name_for_index(idx), secret: fresh_secret() }
}

} // verus!
