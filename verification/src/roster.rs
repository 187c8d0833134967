//! The persisted player roster.
//!
//! The simulation client keeps the identities it registered in a
//! line-oriented roster file, one player per line, fields separated by
//! single spaces: `index name team id secret`. The file is read back on
//! later runs so the same identities are reused, and rewritten whenever
//! new players are registered.

use vstd::prelude::*;

use crate::text::is_digit;
use crate::text::lemma_decimal_is_digits;
use crate::text::lemma_decimal_value_inverse;
use crate::text::lemma_split_concat;
use crate::text::lemma_split_no_sep;
use crate::text::parse_usize;
use crate::text::seq_views;
use crate::text::spec_decimal;
use crate::text::spec_decimal_value;
use crate::text::spec_split;
use crate::text::spec_split_terminator;
use crate::text::split_char;
use crate::text::split_terminator_char;
use crate::text::u64_to_decimal;
use crate::text::valid_decimal;

verus! {

/// One simulated player's persisted identity: its sequential index, the
/// display name, the assigned team name, the public id token, and the
/// secret token that authorizes its actions.
pub struct PlayerConfig {
    pub idx: usize,
    pub name: String,
    pub team: String,
    pub id: String,
    pub secret: String,
}

impl Clone for PlayerConfig {
    fn clone(&self) -> (r: Self)
        ensures
            r == *self,
    {
        PlayerConfig {
            idx: self.idx,
            name: self.name.clone(),
            team: self.team.clone(),
            id: self.id.clone(),
            secret: self.secret.clone(),
        }
    }
}

/// The space-separated fields of a roster line.
pub open spec fn line_fields(s: Seq<char>) -> Seq<Seq<char>> {
    spec_split(s, ' ')
}

/// A roster line parses when it has at least five space-separated fields
/// (any further fields are ignored) and the first field is a decimal
/// index that fits the machine.
pub open spec fn valid_line(s: Seq<char>) -> bool {
    &&& line_fields(s).len() >= 5
    &&& valid_decimal(line_fields(s)[0])
    &&& spec_decimal_value(line_fields(s)[0]) <= usize::MAX
}

/// Whether a config holds exactly what a roster line denotes.
pub open spec fn config_matches_line(p: PlayerConfig, s: Seq<char>) -> bool {
    &&& p.idx == spec_decimal_value(line_fields(s)[0])
    &&& p.name@ == line_fields(s)[1]
    &&& p.team@ == line_fields(s)[2]
    &&& p.id@ == line_fields(s)[3]
    &&& p.secret@ == line_fields(s)[4]
}

/// Parses one roster line, `None` when it is malformed (a malformed
/// roster line is a fatal local error for the caller, not something to
/// repair).
pub fn parse_line(line: &str) -> (r: Option<PlayerConfig>)
    ensures
        r is Some <==> valid_line(line@),
        r is Some ==> config_matches_line(r->0, line@),
{
    let parts: Vec<String> = split_char(line, ' ');
    proof {
        assert(forall|k: int|
            0 <= k < parts@.len() ==> #[trigger] seq_views(parts@)[k] == parts@[k]@);
    }
    if parts.len() < 5 {
        return None;
    }
    match parse_usize(parts[0].as_str()) {
        None => None,
        Some(idx) => Some(
            PlayerConfig {
                idx,
                name: parts[1].clone(),
                team: parts[2].clone(),
                id: parts[3].clone(),
                secret: parts[4].clone(),
            },
        ),
    }
}

impl PlayerConfig {
    /// Builds a config from a roster line. The line must be well formed:
    /// at least five space-separated fields, the first a decimal index.
    pub fn from(value: &str) -> (r: PlayerConfig)
        requires
            valid_line(value@),
        ensures
            config_matches_line(r, value@),
    {
        match parse_line(value) {
            Some(p) => p,
            None => vstd::pervasive::unreached(),
        }
    }

    /// The roster line for this config: the five fields joined by single
    /// spaces.
    pub open spec fn spec_line(self) -> Seq<char> {
        spec_decimal(self.idx as nat) + seq![' '] + self.name@ + seq![' '] + self.team@ + seq![' ']
            + self.id@ + seq![' '] + self.secret@
    }

    /// Renders this config as its roster line.
    pub fn to_line(&self) -> (r: String)
        ensures
            r@ == self.spec_line(),
    {
        proof {
            reveal_strlit(" ");
        }
        let mut s: String = u64_to_decimal(self.idx as u64);
        s.append(" ");
        s.append(self.name.as_str());
        s.append(" ");
        s.append(self.team.as_str());
        s.append(" ");
        s.append(self.id.as_str());
        s.append(" ");
        s.append(self.secret.as_str());
        proof {
            assert(s@ =~= self.spec_line());
        }
        s
    }
}

/// A text field that can be stored in a roster line: it holds no space
/// character, so splitting the line on spaces recovers it exactly.
pub open spec fn space_free(s: Seq<char>) -> bool {
    forall|i: int| 0 <= i < s.len() ==> #[trigger] s[i] != ' '
}

/// The roster line round trip: rendering a config whose text fields are
/// space-free gives a line that parses back to exactly the same config —
/// the fields come back unchanged and the index keeps its value.
pub proof fn lemma_line_round_trip(p: PlayerConfig)
    requires
        space_free(p.name@),
        space_free(p.team@),
        space_free(p.id@),
        space_free(p.secret@),
    ensures
        valid_line(p.spec_line()),
        line_fields(p.spec_line()) == seq![
            spec_decimal(p.idx as nat),
            p.name@,
            p.team@,
            p.id@,
            p.secret@,
        ],
        config_matches_line(p, p.spec_line()),
{
    let dec = spec_decimal(p.idx as nat);
    lemma_decimal_is_digits(p.idx as nat);
    assert(space_free(dec)) by {
        assert(forall|i: int| 0 <= i < dec.len() ==> is_digit(#[trigger] dec[i]));
    }
    let r1 = p.name@ + seq![' '] + p.team@ + seq![' '] + p.id@ + seq![' '] + p.secret@;
    let r2 = p.team@ + seq![' '] + p.id@ + seq![' '] + p.secret@;
    let r3 = p.id@ + seq![' '] + p.secret@;
    assert(p.spec_line() =~= dec + seq![' '] + r1);
    lemma_split_concat(dec, r1, ' ');
    assert(r1 =~= p.name@ + seq![' '] + r2);
    lemma_split_concat(p.name@, r2, ' ');
    assert(r2 =~= p.team@ + seq![' '] + r3);
    lemma_split_concat(p.team@, r3, ' ');
    lemma_split_concat(p.id@, p.secret@, ' ');
    lemma_split_no_sep(p.secret@, ' ');
    assert(line_fields(p.spec_line()) =~= seq![dec, p.name@, p.team@, p.id@, p.secret@]);
    lemma_decimal_value_inverse(p.idx as nat);
}

/// The lines of a roster file: the newline-separated segments, with one
/// final empty segment (from a terminating newline, or an empty file)
/// dropped.
pub open spec fn roster_lines(content: Seq<char>) -> Seq<Seq<char>> {
    spec_split_terminator(content, '\n')
}

/// How many of a roster file's lines are read back for a requested player
/// count: all of them, up to the requested count.
pub open spec fn lines_read(content: Seq<char>, requested: int) -> int {
    if roster_lines(content).len() <= requested {
        roster_lines(content).len() as int
    } else {
        requested
    }
}

/// Reads the players persisted in a roster file, at most `requested` of
/// them. Returns `None` as soon as one of the lines read is malformed: a
/// corrupt roster is a fatal local error, no partial roster is returned.
pub fn parse_roster(content: &str, requested: usize) -> (r: Option<Vec<PlayerConfig>>)
    ensures
        r is Some <==> (forall|k: int|
            0 <= k < lines_read(content@, requested as int) ==> valid_line(
                #[trigger] roster_lines(content@)[k],
            )),
        r is Some ==> {
            &&& r->0@.len() == lines_read(content@, requested as int)
            &&& forall|k: int|
                0 <= k < r->0@.len() ==> config_matches_line(
                    #[trigger] r->0@[k],
                    roster_lines(content@)[k],
                )
        },
{
    let lines: Vec<String> = split_terminator_char(content, '\n');
    proof {
        assert(forall|k: int|
            0 <= k < lines@.len() ==> #[trigger] seq_views(lines@)[k] == lines@[k]@);
    }
    let count: usize = if lines.len() <= requested {
        lines.len()
    } else {
        requested
    };
    let mut players: Vec<PlayerConfig> = Vec::new();
    let mut k: usize = 0;
    while k < count
        invariant
            count == lines_read(content@, requested as int),
            count <= lines@.len(),
            seq_views(lines@) == roster_lines(content@),
            forall|j: int| 0 <= j < lines@.len() ==> #[trigger] seq_views(lines@)[j] == lines@[j]@,
            k <= count,
            players@.len() == k,
            forall|j: int|
                0 <= j < k ==> valid_line(#[trigger] roster_lines(content@)[j])
                    && config_matches_line(players@[j], roster_lines(content@)[j]),
        decreases count - k,
    {
        match parse_line(lines[k].as_str()) {
            None => {
                proof {
                    assert(!valid_line(roster_lines(content@)[k as int]));
                }
                return None;
            },
            Some(p) => {
                players.push(p);
            },
        }
        k += 1;
    }
    Some(players)
}

/// The whole roster file for a set of players: each one's line, each line
/// terminated by a newline.
pub open spec fn spec_roster_content(s: Seq<PlayerConfig>) -> Seq<char>
    decreases s.len(),
{
    if s.len() == 0 {
        Seq::<char>::empty()
    } else {
        spec_roster_content(s.drop_last()) + s.last().spec_line() + seq!['\n']
    }
}

/// Renders the roster file for a set of players: one line per player, in
/// order, each terminated by a newline. The file is rewritten whole
/// whenever new players were registered.
pub fn roster_content(players: &Vec<PlayerConfig>) -> (r: String)
    ensures
        r@ == spec_roster_content(players@),
{
    proof {
        reveal_strlit("\n");
    }
    let mut s = String::new();
    let n: usize = players.len();
    let mut k: usize = 0;
    while k < n
        invariant
            n == players@.len(),
            k <= n,
            s@ == spec_roster_content(players@.take(k as int)),
        decreases n - k,
    {
        let line = players[k].to_line();
        s.append(line.as_str());
        s.append("\n");
        proof {
            reveal_strlit("\n");
            assert(players@.take(k + 1).drop_last() =~= players@.take(k as int));
            assert(players@.take(k + 1).last() == players@[k as int]);
            assert(s@ =~= spec_roster_content(players@.take(k + 1)));
        }
        k += 1;
    }
    proof {
        assert(players@.take(n as int) =~= players@);
    }
    s
}

/// A roster ordered by player index.
pub open spec fn sorted_by_idx(s: Seq<PlayerConfig>) -> bool {
    forall|i: int, j: int| 0 <= i < j < s.len() ==> #[trigger] s[i].idx <= #[trigger] s[j].idx
}

/// Sorts the roster by player index (insertion sort), keeping exactly the
/// same players.
pub fn sort_players_by_idx(players: &mut Vec<PlayerConfig>)
    ensures
        sorted_by_idx(final(players)@),
        final(players)@.to_multiset() == old(players)@.to_multiset(),
{
    let n: usize = players.len();
    if n <= 1 {
        return;
    }
    let mut i: usize = 1;
    while i < n
        invariant
            n == players@.len(),
            1 <= i <= n,
            sorted_by_idx(players@.take(i as int)),
            players@.to_multiset() == old(players)@.to_multiset(),
        decreases n - i,
    {
        let mut j: usize = i;
        proof {
            assert forall|a: int, b: int|
                0 <= a < b <= i && b != j implies #[trigger] players@[a].idx
                <= #[trigger] players@[b].idx by {
                assert(players@.take(i as int)[a] == players@[a]);
                assert(players@.take(i as int)[b] == players@[b]);
            }
        }
        while j > 0 && players[j - 1].idx > players[j].idx
            invariant
                n == players@.len(),
                j <= i < n,
                players@.to_multiset() == old(players)@.to_multiset(),
                forall|a: int, b: int|
                    0 <= a < b <= i && b != j ==> #[trigger] players@[a].idx
                        <= #[trigger] players@[b].idx,
            decreases j,
        {
            let ghost before = players@;
            let moved = players.remove(j);
            players.insert(j - 1, moved);
            proof {
                broadcast use vstd::seq_lib::group_to_multiset_ensures;

                assert(players@ =~= before.update(j - 1, before[j as int]).update(
                    j as int,
                    before[j - 1],
                ));
                assert(players@.to_multiset() == before.to_multiset()) by {
                    assert(before.remove(j as int).insert(j - 1, before[j as int]) =~= players@);
                }
                let jj = j - 1 as int;
                assert forall|a: int, b: int|
                    0 <= a < b <= i && b != jj implies #[trigger] players@[a].idx
                    <= #[trigger] players@[b].idx by {
                    if b == j as int {
                        if a == jj {
                            assert(players@[a] == before[j as int]);
                            assert(players@[b] == before[j - 1]);
                        } else {
                            assert(players@[a] == before[a]);
                            assert(players@[b] == before[j - 1]);
                            assert(before[a].idx <= before[j - 1].idx);
                        }
                    } else if a == jj {
                        assert(players@[a] == before[j as int]);
                        assert(players@[b] == before[b]);
                        assert(before[j as int].idx <= before[b].idx);
                    } else if a == j as int {
                        assert(players@[a] == before[j - 1]);
                        assert(players@[b] == before[b]);
                        assert(before[j - 1].idx <= before[b].idx);
                    } else {
                        assert(players@[a] == before[a]);
                        assert(players@[b] == before[b]);
                    }
                }
            }
            j -= 1;
        }
        proof {
            assert forall|a: int, b: int|
                0 <= a < b <= i implies #[trigger] players@[a].idx <= #[trigger] players@[b].idx by {
                if b == j as int && j > 0 {
                    assert(players@[j - 1].idx <= players@[j as int].idx);
                    if a < j - 1 {
                        assert(players@[a].idx <= players@[j - 1].idx);
                    }
                }
            }
            assert forall|a: int, b: int|
                0 <= a < b < i + 1 implies #[trigger] players@.take(i + 1)[a].idx
                <= #[trigger] players@.take(i + 1)[b].idx by {
                assert(players@.take(i + 1)[a] == players@[a]);
                assert(players@.take(i + 1)[b] == players@[b]);
            }
        }
        i += 1;
    }
    proof {
        assert(players@.take(n as int) =~= players@);
    }
}

/// The indices under which missing players are registered: the runs
/// continue the roster, so a roster holding `have` players grows with
/// indices `have + 1 ..= requested`.
pub fn registration_indices(have: usize, requested: usize) -> (r: Vec<usize>)
    requires
        have <= requested,
    ensures
        r@.len() == requested - have,
        forall|k: int| 0 <= k < r@.len() ==> #[trigger] r@[k] == have + 1 + k,
{
    let mut r: Vec<usize> = Vec::new();
    let mut idx: usize = have;
    while idx < requested
        invariant
            have <= idx <= requested,
            r@.len() == idx - have,
            forall|k: int| 0 <= k < r@.len() ==> #[trigger] r@[k] == have + 1 + k,
        decreases requested - idx,
    {
        r.push(idx + 1);
        idx += 1;
    }
    r
}

} // verus!
