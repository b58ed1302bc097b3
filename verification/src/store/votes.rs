//! The tables of votes and ballots.

use vstd::prelude::*;
use crate::json::{column_list, column_texts, texts_json, write_texts};
use crate::rows::{
    any, count, exists_row, find, first_match, first_n, limit_front, ordered, rewrite, select,
    sort, Row,
};
use crate::store::{
    BallotRow, BallotRowView, DbError, Store, StoreError, StoreErrorView, StoreView, VoteRow,
    VoteRowView,
};
use crate::text::{copy_list, copy_text, lex_lt, own, text_lt};
use crate::time::{
    column_text, column_time, in_calendar, kept, now, parse_timestamp, reads_as, show, shown,
    Timestamp, COLUMN_FORMAT,
};

verus! {

/// A vote as the table holds it.
#[derive(Debug)]
pub struct VoteMeta {
    pub vote_id: String,
    pub room_id: String,
    pub title: String,
    pub description: Option<String>,
    pub options: Vec<String>,
    pub created_by: String,
    pub created_at: Timestamp,
    pub closes_at: Option<Timestamp>,
    pub status: String,
    pub eligible_voters: usize,
}

/// What a `VoteMeta` stands for.
pub struct VoteMetaView {
    pub vote_id: Seq<char>,
    pub room_id: Seq<char>,
    pub title: Seq<char>,
    pub description: Option<Seq<char>>,
    pub options: Seq<Seq<char>>,
    pub created_by: Seq<char>,
    pub created_at: Timestamp,
    pub closes_at: Option<Timestamp>,
    pub status: Seq<char>,
    pub eligible_voters: usize,
}

impl View for VoteMeta {
    type V = VoteMetaView;

    open spec fn view(&self) -> VoteMetaView {
        VoteMetaView {
            vote_id: self.vote_id@,
            room_id: self.room_id@,
            title: self.title@,
            description: self.description.deep_view(),
            options: self.options.deep_view(),
            created_by: self.created_by@,
            created_at: self.created_at,
            closes_at: self.closes_at,
            status: self.status@,
            eligible_voters: self.eligible_voters,
        }
    }
}

impl Row for VoteMeta {
    fn duplicate(&self) -> (r: VoteMeta) {
        VoteMeta {
            vote_id: self.vote_id.clone(),
            room_id: self.room_id.clone(),
            title: self.title.clone(),
            description: copy_text(&self.description),
            options: copy_list(&self.options),
            created_by: self.created_by.clone(),
            created_at: self.created_at,
            closes_at: self.closes_at,
            status: self.status.clone(),
            eligible_voters: self.eligible_voters,
        }
    }
}

impl Clone for VoteMeta {
    fn clone(&self) -> (r: VoteMeta)
        ensures
            r@ == self@,
    {
        self.duplicate()
    }
}

/// The votes with an id.
pub open spec fn with_vote_id(vote_id: Seq<char>) -> spec_fn(VoteRowView) -> bool {
    |v: VoteRowView| v.vote_id == vote_id
}

/// The votes of a room.
pub open spec fn votes_in(room_id: Seq<char>) -> spec_fn(VoteRowView) -> bool {
    |v: VoteRowView| v.room_id == room_id
}

/// The order of vote lists: the latest first, and of two at one time the one
/// with the greater id first.
pub open spec fn latest_first() -> spec_fn(VoteRowView, VoteRowView) -> bool {
    |a: VoteRowView, b: VoteRowView|
        lex_lt(b.created_at, a.created_at) || (a.created_at == b.created_at && lex_lt(
            b.vote_id,
            a.vote_id,
        ))
}

/// The ballots of a vote.
pub open spec fn ballots_of(vote_id: Seq<char>) -> spec_fn(BallotRowView) -> bool {
    |b: BallotRowView| b.vote_id == vote_id
}

/// The ballots of an agent in a vote.
pub open spec fn ballot_by(vote_id: Seq<char>, agent_id: Seq<char>) -> spec_fn(
    BallotRowView,
) -> bool {
    |b: BallotRowView| b.vote_id == vote_id && b.agent_id == agent_id
}

/// The order of ballots: by the time of casting.
pub open spec fn by_cast_time() -> spec_fn(BallotRowView, BallotRowView) -> bool {
    |a: BallotRowView, b: BallotRowView| lex_lt(a.cast_at, b.cast_at)
}

/// Whether an optional instant is a correct reading of an optional column text.
pub open spec fn option_reads_as(text: Option<Seq<char>>, t: Option<Timestamp>) -> bool {
    match (text, t) {
        (Some(text), Some(t)) => reads_as(text, t),
        (None, None) => true,
        _ => false,
    }
}

/// Whether a vote is a correct reading of a row.
pub open spec fn vote_reads(row: VoteRowView, v: VoteMetaView) -> bool {
    &&& v == (VoteMetaView {
        vote_id: row.vote_id,
        room_id: row.room_id,
        title: row.title,
        description: row.description,
        options: column_texts(row.options),
        created_by: row.created_by,
        created_at: v.created_at,
        closes_at: v.closes_at,
        status: row.status,
        eligible_voters: row.eligible_voters,
    })
    &&& reads_as(row.created_at, v.created_at)
    &&& option_reads_as(row.closes_at, v.closes_at)
}

/// Whether votes are a correct reading of rows, one by one.
pub open spec fn votes_read(rows: Seq<VoteRowView>, votes: Seq<VoteMeta>) -> bool {
    &&& votes.len() == rows.len()
    &&& forall|i: int| 0 <= i < rows.len() ==> vote_reads(rows[i], (#[trigger] votes[i])@)
}

/// Whether triples of agent id, agent name and option are a correct reading of
/// ballots, one by one.
pub open spec fn ballots_read(
    rows: Seq<BallotRowView>,
    ballots: Seq<(String, String, usize)>,
) -> bool {
    &&& ballots.len() == rows.len()
    &&& forall|i: int|
        0 <= i < rows.len() ==> (#[trigger] ballots[i]).0@ == rows[i].agent_id && ballots[i].1@
            == rows[i].agent_name && ballots[i].2 == rows[i].option_index
}

/// The tables with a vote added.
pub open spec fn with_vote(s: StoreView, row: VoteRowView) -> StoreView {
    StoreView { votes: s.votes.push(row), ..s }
}

/// The tables with a ballot added.
pub open spec fn with_ballot(s: StoreView, row: BallotRowView) -> StoreView {
    StoreView { ballots: s.ballots.push(row), ..s }
}

/// What adding a vote does: one whose id is not new changes nothing.
pub open spec fn vote_creation(
    before: Store,
    after: Store,
    row: VoteRowView,
    r: Result<(), StoreError>,
) -> bool {
    if any(before@.votes, with_vote_id(row.vote_id)) {
        r matches Err(e) && e@ == StoreErrorView::Db(DbError::DuplicateVote) && after == before
    } else {
        r is Ok && after@ == with_vote(before@, row)
    }
}

/// Why a ballot is refused, if it is. Its vote must be there and open, and its
/// agent must not have voted yet.
pub open spec fn ballot_refusal(s: StoreView, row: BallotRowView) -> Option<StoreErrorView> {
    match first_match(s.votes, with_vote_id(row.vote_id)) {
        None => Some(StoreErrorView::VoteNotFound),
        Some(v) => if v.status != "open"@ {
            Some(StoreErrorView::VoteClosed)
        } else if any(s.ballots, ballot_by(row.vote_id, row.agent_id)) {
            Some(StoreErrorView::AlreadyVoted)
        } else {
            None
        },
    }
}

/// What casting a ballot does: a refused one changes nothing.
pub open spec fn ballot_casting(
    before: Store,
    after: Store,
    row: BallotRowView,
    r: Result<(), StoreError>,
) -> bool {
    match ballot_refusal(before@, row) {
        None => r is Ok && after@ == with_ballot(before@, row),
        Some(e) => r matches Err(err) && err@ == e && after == before,
    }
}

/// A vote that is closed, where it has the given id.
pub open spec fn closed_where(vote_id: Seq<char>) -> spec_fn(VoteRowView) -> VoteRowView {
    |v: VoteRowView|
        if v.vote_id == vote_id {
            VoteRowView { status: "closed"@, ..v }
        } else {
            v
        }
}

/// Reads an optional column text.
fn read_option(text: &Option<String>) -> (r: Option<Timestamp>)
    ensures
        option_reads_as(text.deep_view(), r),
{
    match text {
        Some(s) => Some(parse_timestamp(s.as_str())),
        None => None,
    }
}

/// Reads a row as a vote.
fn read_vote(row: &VoteRow) -> (r: VoteMeta)
    ensures
        vote_reads(row@, r@),
{
    VoteMeta {
        vote_id: row.vote_id.clone(),
        room_id: row.room_id.clone(),
        title: row.title.clone(),
        description: copy_text(&row.description),
        options: column_list(row.options.as_str()),
        created_by: row.created_by.clone(),
        created_at: parse_timestamp(row.created_at.as_str()),
        closes_at: read_option(&row.closes_at),
        status: row.status.clone(),
        eligible_voters: row.eligible_voters,
    }
}

impl Store {
    fn find_vote(&self, vote_id: &str) -> (r: Option<usize>)
        ensures
            r is Some <==> any(self@.votes, with_vote_id(vote_id@)),
            match r {
                Some(i) => i < self.votes.len() && first_match(
                    self@.votes,
                    with_vote_id(vote_id@),
                ) == Some(self.votes@[i as int]@),
                None => first_match(self@.votes, with_vote_id(vote_id@)) is None,
            },
    {
        find(
            &self.votes,
            |t: &VoteRow| -> (b: bool)
                ensures
                    b == (t@.vote_id == vote_id@)
                { *t.vote_id.as_str() == *vote_id },
            Ghost(with_vote_id(vote_id@)),
        )
    }

    /// Adds a row to the table. One whose id is not new changes nothing.
    pub fn append_vote(&mut self, row: VoteRow) -> (r: Result<(), StoreError>)
        ensures
            vote_creation(*old(self), *final(self), row@, r),
    {
        if self.find_vote(row.vote_id.as_str()).is_some() {
            return Err(StoreError::Db(DbError::DuplicateVote));
        }
        self.votes.push(row);
        assert(self@ =~= with_vote(old(self)@, row@));
        Ok(())
    }

    /// Adds an open vote created at the given time.
    pub fn create_vote_at(
        &mut self,
        vote_id: &str,
        room_id: &str,
        title: &str,
        description: Option<&str>,
        options: &Vec<String>,
        created_by: &str,
        closes_at: Option<Timestamp>,
        eligible_voters: usize,
        created_at: &str,
    ) -> (r: Result<(), StoreError>)
        ensures
            vote_creation(
                *old(self),
                *final(self),
                (VoteRowView {
                    vote_id: vote_id@,
                    room_id: room_id@,
                    title: title@,
                    description: description.deep_view(),
                    options: texts_json(options.deep_view()),
                    created_by: created_by@,
                    created_at: created_at@,
                    closes_at: column_time(closes_at),
                    status: "open"@,
                    eligible_voters,
                }),
                r,
            ),
            r is Ok ==> column_texts(final(self)@.votes.last().options) == options.deep_view(),
            closes_at matches Some(t) ==> kept(t),
    {
        let row = VoteRow {
            vote_id: vote_id.to_owned(),
            room_id: room_id.to_owned(),
            title: title.to_owned(),
            description: own(description),
            options: write_texts(options),
            created_by: created_by.to_owned(),
            created_at: created_at.to_owned(),
            closes_at: column_text(closes_at),
            status: "open".to_owned(),
            eligible_voters,
        };
        let r = self.append_vote(row);
        proof {
            if r is Ok {
                assert(self@.votes.last() == row@);
            }
        }
        r
    }

    /// Adds an open vote; the clock says when it was created.
    pub fn create_vote(
        &mut self,
        vote_id: &str,
        room_id: &str,
        title: &str,
        description: Option<&str>,
        options: &Vec<String>,
        created_by: &str,
        closes_at: Option<Timestamp>,
        eligible_voters: usize,
    ) -> (r: Result<(), StoreError>)
        ensures
            exists|at: Timestamp|
                in_calendar(at) && kept(at) && #[trigger] vote_creation(
                    *old(self),
                    *final(self),
                    (VoteRowView {
                        vote_id: vote_id@,
                        room_id: room_id@,
                        title: title@,
                        description: description.deep_view(),
                        options: texts_json(options.deep_view()),
                        created_by: created_by@,
                        created_at: shown(at, COLUMN_FORMAT@),
                        closes_at: column_time(closes_at),
                        status: "open"@,
                        eligible_voters,
                    }),
                    r,
                ),
            r is Ok ==> column_texts(final(self)@.votes.last().options) == options.deep_view(),
            closes_at matches Some(t) ==> kept(t),
    {
        let clock = now();
        let created_at = show(clock, COLUMN_FORMAT);
        self.create_vote_at(
            vote_id,
            room_id,
            title,
            description,
            options,
            created_by,
            closes_at,
            eligible_voters,
            created_at.as_str(),
        )
    }

    /// Casts a ballot at the given time. A refused ballot changes nothing.
    pub fn cast_vote_at(
        &mut self,
        vote_id: &str,
        agent_id: &str,
        agent_name: &str,
        option_index: usize,
        cast_at: &str,
    ) -> (r: Result<(), StoreError>)
        ensures
            ballot_casting(
                *old(self),
                *final(self),
                (BallotRowView {
                    vote_id: vote_id@,
                    agent_id: agent_id@,
                    agent_name: agent_name@,
                    option_index,
                    cast_at: cast_at@,
                }),
                r,
            ),
    {
        match self.find_vote(vote_id) {
            None => {
                return Err(StoreError::VoteNotFound);
            },
            Some(i) => {
                if !(*self.votes[i].status.as_str() == *"open") {
                    return Err(StoreError::VoteClosed);
                }
            },
        }
        let voted = exists_row(
            &self.ballots,
            |t: &BallotRow| -> (b: bool)
                ensures
                    b == (t@.vote_id == vote_id@ && t@.agent_id == agent_id@)
                { *t.vote_id.as_str() == *vote_id && *t.agent_id.as_str() == *agent_id },
            Ghost(ballot_by(vote_id@, agent_id@)),
        );
        if voted {
            return Err(StoreError::AlreadyVoted);
        }
        let row = BallotRow {
            vote_id: vote_id.to_owned(),
            agent_id: agent_id.to_owned(),
            agent_name: agent_name.to_owned(),
            option_index,
            cast_at: cast_at.to_owned(),
        };
        self.ballots.push(row);
        assert(self@ =~= with_ballot(old(self)@, row@));
        Ok(())
    }

    /// Casts a ballot; the clock says when.
    pub fn cast_vote(
        &mut self,
        vote_id: &str,
        agent_id: &str,
        agent_name: &str,
        option_index: usize,
    ) -> (r: Result<(), StoreError>)
        ensures
            exists|at: Timestamp|
                in_calendar(at) && kept(at) && #[trigger] ballot_casting(
                    *old(self),
                    *final(self),
                    (BallotRowView {
                        vote_id: vote_id@,
                        agent_id: agent_id@,
                        agent_name: agent_name@,
                        option_index,
                        cast_at: shown(at, COLUMN_FORMAT@),
                    }),
                    r,
                ),
    {
        let clock = now();
        let cast_at = show(clock, COLUMN_FORMAT);
        self.cast_vote_at(vote_id, agent_id, agent_name, option_index, cast_at.as_str())
    }

    /// How many ballots a vote has.
    pub fn get_vote_ballot_count(&self, vote_id: &str) -> (r: Result<usize, StoreError>)
        ensures
            r matches Ok(n) && n == self@.ballots.filter(ballots_of(vote_id@)).len(),
    {
        Ok(
            count(
                &self.ballots,
                |t: &BallotRow| -> (b: bool)
                    ensures
                        b == (t@.vote_id == vote_id@)
                    { *t.vote_id.as_str() == *vote_id },
                Ghost(ballots_of(vote_id@)),
            ),
        )
    }

    /// The ballots of a vote in the order of casting: agent id, agent name and
    /// option of each.
    pub fn get_vote_ballots(&self, vote_id: &str) -> (r: Result<
        Vec<(String, String, usize)>,
        StoreError,
    >)
        ensures
            r matches Ok(list) && ballots_read(
                ordered(self@.ballots.filter(ballots_of(vote_id@)), by_cast_time()),
                list@,
            ),
    {
        let chosen = select(
            &self.ballots,
            |t: &BallotRow| -> (b: bool)
                ensures
                    b == (t@.vote_id == vote_id@)
                { *t.vote_id.as_str() == *vote_id },
            Ghost(ballots_of(vote_id@)),
        );
        let sorted = sort(
            chosen,
            |a: &BallotRow, b: &BallotRow| -> (o: bool)
                ensures
                    o == lex_lt(a@.cast_at, b@.cast_at)
                { text_lt(a.cast_at.as_str(), b.cast_at.as_str()) },
            Ghost(by_cast_time()),
        );
        let mut out: Vec<(String, String, usize)> = Vec::new();
        let mut i: usize = 0;
        while i < sorted.len()
            invariant
                i <= sorted.len(),
                out.len() == i,
                forall|j: int|
                    0 <= j < i ==> (#[trigger] out@[j]).0@ == sorted@[j]@.agent_id && out@[j].1@
                        == sorted@[j]@.agent_name && out@[j].2 == sorted@[j]@.option_index,
            decreases sorted.len() - i,
        {
            let b = &sorted[i];
            out.push((b.agent_id.clone(), b.agent_name.clone(), b.option_index));
            i = i + 1;
        }
        Ok(out)
    }

    /// Closes a vote, where there is one with this id.
    pub fn close_vote(&mut self, vote_id: &str) -> (r: Result<(), StoreError>)
        ensures
            r is Ok,
            final(self)@ == (StoreView {
                votes: old(self)@.votes.map_values(closed_where(vote_id@)),
                ..old(self)@
            }),
    {
        let votes = rewrite(
            &self.votes,
            |t: &VoteRow| -> (u: VoteRow)
                ensures
                    u@ == closed_where(vote_id@)(t@)
                {
                    let mut u = t.duplicate();
                    if *t.vote_id.as_str() == *vote_id {
                        u.status = "closed".to_owned();
                    }
                    u
                },
            Ghost(closed_where(vote_id@)),
        );
        self.votes = votes;
        Ok(())
    }

    /// The vote with this id.
    pub fn get_vote_meta(&self, vote_id: &str) -> (r: Result<Option<VoteMeta>, StoreError>)
        ensures
            r matches Ok(found) && match first_match(self@.votes, with_vote_id(vote_id@)) {
                Some(row) => found matches Some(v) && vote_reads(row, v@),
                None => found is None,
            },
    {
        match self.find_vote(vote_id) {
            Some(i) => Ok(Some(read_vote(&self.votes[i]))),
            None => Ok(None),
        }
    }

    /// The latest votes of a room, the latest first.
    pub fn list_votes(&self, room_id: &str, limit: u32) -> (r: Result<Vec<VoteMeta>, StoreError>)
        ensures
            r matches Ok(list) && votes_read(
                first_n(
                    ordered(self@.votes.filter(votes_in(room_id@)), latest_first()),
                    limit as int,
                ),
                list@,
            ),
    {
        let chosen = select(
            &self.votes,
            |t: &VoteRow| -> (b: bool)
                ensures
                    b == (t@.room_id == room_id@)
                { *t.room_id.as_str() == *room_id },
            Ghost(votes_in(room_id@)),
        );
        let sorted = sort(
            chosen,
            |a: &VoteRow, b: &VoteRow| -> (o: bool)
                ensures
                    o == latest_first()(a@, b@)
                {
                    text_lt(b.created_at.as_str(), a.created_at.as_str()) || (
                    *a.created_at.as_str() == *b.created_at.as_str() && text_lt(
                        b.vote_id.as_str(),
                        a.vote_id.as_str(),
                    ))
                },
            Ghost(latest_first()),
        );
        let rows = limit_front(sorted, limit as u64);
        let mut out: Vec<VoteMeta> = Vec::new();
        let mut i: usize = 0;
        while i < rows.len()
            invariant
                i <= rows.len(),
                out.len() == i,
                forall|j: int| 0 <= j < i ==> vote_reads(rows@[j]@, (#[trigger] out@[j])@),
            decreases rows.len() - i,
        {
            out.push(read_vote(&rows[i]));
            i = i + 1;
        }
        Ok(out)
    }
}

} // verus!
