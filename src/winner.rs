use vstd::prelude::*;

use crate::error::ErrorKind;
use crate::sources::{ascii_string, fresh_token, is_alphanumeric_byte, random_alphanumeric, random_index};

verus! {

/// The number of characters of a voter id.
pub const VOTER_ID_LEN: usize = 5;

/// A participant: the session token that keys its vote, the name it gave and
/// the short id shown when it wins.
pub struct VotingSession {
    pub session_token: String,
    pub display_name: String,
    pub voter_id: String,
}

/// The participant drawn by the lottery.
pub struct LotteryWinner {
    pub name: String,
    pub voter_id: String,
}

/// A character a voter id may hold: an upper-case ASCII letter or a digit.
pub open spec fn is_voter_id_char(c: char) -> bool {
    (48 <= c as u32 <= 57) || (65 <= c as u32 <= 90)
}

/// The upper-case form of an ASCII byte; other bytes stay as they are.
pub open spec fn upper_ascii(b: u8) -> u8 {
    if 97 <= b <= 122 {
        (b - 32) as u8
    } else {
        b
    }
}

/// Upper-cases the ASCII letters of `bytes`.
pub fn uppercase_ascii(bytes: &Vec<u8>) -> (r: Vec<u8>)
    ensures
        r@ == bytes@.map_values(|b: u8| upper_ascii(b)),
{
    let mut out: Vec<u8> = Vec::new();
    let n = bytes.len();
    let mut i: usize = 0;
    while i < n
        invariant
            n == bytes@.len(),
            0 <= i <= n,
            out@ == bytes@.subrange(0, i as int).map_values(|b: u8| upper_ascii(b)),
        decreases n - i,
    {
        let b = bytes[i];
        let u = if 97 <= b && b <= 122 {
            b - 32
        } else {
            b
        };
        out.push(u);
        assert(bytes@.subrange(0, i + 1) =~= bytes@.subrange(0, i as int).push(b));
        i += 1;
    }
    assert(bytes@.subrange(0, n as int) =~= bytes@);
    out
}

/// A random voter id of upper-case letters and digits.
pub fn generate_voter_id() -> (r: String)
    ensures
        r@.len() == VOTER_ID_LEN,
        forall|i: int| 0 <= i < r@.len() ==> is_voter_id_char(#[trigger] r@[i]),
{
    let raw = random_alphanumeric(VOTER_ID_LEN);
    let upper = uppercase_ascii(&raw);
    assert forall|i: int| 0 <= i < upper@.len() implies #[trigger] upper@[i] < 128 && (48 <= upper@[i]
        <= 57 || 65 <= upper@[i] <= 90) by {
        assert(is_alphanumeric_byte(raw@[i]));
    }
    let r = ascii_string(upper);
    assert forall|i: int| 0 <= i < r@.len() implies is_voter_id_char(#[trigger] r@[i]) by {
        assert(r@[i] as u32 == upper@[i] as u32);
    }
    r
}

impl VotingSession {
    /// A new participant named `display_name`, with a fresh random token and
    /// voter id.
    pub fn create(display_name: String) -> (r: VotingSession)
        ensures
            r.display_name == display_name,
            r.session_token@.len() == 36,
            r.voter_id@.len() == VOTER_ID_LEN,
            forall|i: int| 0 <= i < r.voter_id@.len() ==> is_voter_id_char(#[trigger] r.voter_id@[i]),
    {
        let session_token = fresh_token();
        let voter_id = generate_voter_id();
        VotingSession { session_token, display_name, voter_id }
    }
}

/// The participant at `index`, the draw having been made; an empty pool has none.
pub fn pick_at<T>(participants: &Vec<T>, index: usize) -> (r: Result<&T, ErrorKind>)
    requires
        participants@.len() == 0 || index < participants@.len(),
    ensures
        participants@.len() == 0 ==> r == Err::<&T, ErrorKind>(ErrorKind::EmptyPool),
        participants@.len() > 0 ==> (r matches Ok(x) && *x == participants@[index as int]),
{
    if participants.len() == 0 {
        return Err(ErrorKind::EmptyPool);
    }
    Ok(&participants[index])
}

/// One participant drawn uniformly at random. Draws are independent, so
/// repeated calls may return the same participant.
pub fn pick<T>(participants: &Vec<T>) -> (r: Result<&T, ErrorKind>)
    ensures
        participants@.len() == 0 ==> r == Err::<&T, ErrorKind>(ErrorKind::EmptyPool),
        participants@.len() > 0 ==> (r matches Ok(x) && exists|i: int|
            0 <= i < participants@.len() && *x == participants@[i]),
        participants@.len() == 1 ==> (r matches Ok(x) && *x == participants@[0]),
{
    if participants.len() == 0 {
        return Err(ErrorKind::EmptyPool);
    }
    let index = random_index(participants.len());
    pick_at(participants, index)
}

/// The lottery: the name and voter id of one participant drawn at random.
pub fn pick_winner(sessions: &Vec<VotingSession>) -> (r: Result<LotteryWinner, ErrorKind>)
    ensures
        sessions@.len() == 0 ==> r is Err && r->Err_0 == ErrorKind::EmptyPool,
        sessions@.len() > 0 ==> (r matches Ok(w) && exists|i: int|
            0 <= i < sessions@.len() && w.name == sessions@[i].display_name && w.voter_id
                == sessions@[i].voter_id),
        sessions@.len() == 1 ==> (r matches Ok(w) && w.name == sessions@[0].display_name
            && w.voter_id == sessions@[0].voter_id),
{
    match pick(sessions) {
        Err(e) => Err(e),
        Ok(s) => Ok(LotteryWinner { name: s.display_name.clone(), voter_id: s.voter_id.clone() }),
    }
}

} // verus!
