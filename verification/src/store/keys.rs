//! The tables of API keys and of agent sessions.

use vstd::prelude::*;
use crate::json::{texts_json, write_texts};
use crate::rows::{any, exists_row, find, first_match, rewrite, Row};
use crate::store::{
    DbError, KeyRow, KeyRowView, SessionRow, SessionRowView, Store, StoreError, StoreErrorView,
    StoreView,
};
use crate::text::own;
use crate::time::{in_calendar, kept, now, show, shown, Timestamp, COLUMN_FORMAT};

verus! {

/// The key rows with a text.
pub open spec fn with_key(api_key: Seq<char>) -> spec_fn(KeyRowView) -> bool {
    |k: KeyRowView| k.api_key == api_key
}

/// The sessions with an id.
pub open spec fn with_session_id(session_id: Seq<char>) -> spec_fn(SessionRowView) -> bool {
    |s: SessionRowView| s.session_id == session_id
}

/// The tables with an API key added.
pub open spec fn with_api_key(s: StoreView, row: KeyRowView) -> StoreView {
    StoreView { keys: s.keys.push(row), ..s }
}

/// The tables with a session added.
pub open spec fn with_session(s: StoreView, row: SessionRowView) -> StoreView {
    StoreView { sessions: s.sessions.push(row), ..s }
}

/// What adding an API key does: one that is not new changes nothing.
pub open spec fn key_creation(
    before: Store,
    after: Store,
    row: KeyRowView,
    r: Result<(), StoreError>,
) -> bool {
    if any(before@.keys, with_key(row.api_key)) {
        r matches Err(e) && e@ == StoreErrorView::Db(DbError::DuplicateKey) && after == before
    } else {
        r is Ok && after@ == with_api_key(before@, row)
    }
}

/// What starting a session does: one whose id is not new changes nothing.
pub open spec fn session_start(
    before: Store,
    after: Store,
    row: SessionRowView,
    r: Result<(), StoreError>,
) -> bool {
    if any(before@.sessions, with_session_id(row.session_id)) {
        r matches Err(e) && e@ == StoreErrorView::Db(DbError::DuplicateSession) && after == before
    } else {
        r is Ok && after@ == with_session(before@, row)
    }
}

/// A session that ended at the given time, where it has the given id.
pub open spec fn ended_where(session_id: Seq<char>, at: Seq<char>) -> spec_fn(
    SessionRowView,
) -> SessionRowView {
    |s: SessionRowView|
        if s.session_id == session_id {
            SessionRowView { disconnected_at: Some(at), ..s }
        } else {
            s
        }
}

/// The tables after a session ended.
pub open spec fn with_session_ended(s: StoreView, session_id: Seq<char>, at: Seq<char>) -> StoreView {
    StoreView { sessions: s.sessions.map_values(ended_where(session_id, at)), ..s }
}

impl Store {
    fn find_key(&self, api_key: &str) -> (r: Option<usize>)
        ensures
            r is Some <==> any(self@.keys, with_key(api_key@)),
            match r {
                Some(i) => i < self.keys.len() && first_match(self@.keys, with_key(api_key@))
                    == Some(self.keys@[i as int]@),
                None => first_match(self@.keys, with_key(api_key@)) is None,
            },
    {
        find(
            &self.keys,
            |t: &KeyRow| -> (b: bool)
                ensures
                    b == (t@.api_key == api_key@)
                { *t.api_key.as_str() == *api_key },
            Ghost(with_key(api_key@)),
        )
    }

    /// Adds an API key of the free tier, created at the given time.
    pub fn create_api_key_at(&mut self, api_key: &str, label: Option<&str>, created_at: &str) -> (r:
        Result<(), StoreError>)
        ensures
            key_creation(
                *old(self),
                *final(self),
                (KeyRowView {
                    api_key: api_key@,
                    tier: "free"@,
                    label: label.deep_view(),
                    created_at: created_at@,
                }),
                r,
            ),
    {
        if self.find_key(api_key).is_some() {
            return Err(StoreError::Db(DbError::DuplicateKey));
        }
        let row = KeyRow {
            api_key: api_key.to_owned(),
            tier: "free".to_owned(),
            label: own(label),
            created_at: created_at.to_owned(),
        };
        self.keys.push(row);
        assert(self@ =~= with_api_key(old(self)@, row@));
        Ok(())
    }

    /// Adds an API key of the free tier; the clock says when it was created.
    pub fn create_api_key(&mut self, api_key: &str, label: Option<&str>) -> (r: Result<
        (),
        StoreError,
    >)
        ensures
            exists|at: Timestamp|
                in_calendar(at) && kept(at) && #[trigger] key_creation(
                    *old(self),
                    *final(self),
                    (KeyRowView {
                        api_key: api_key@,
                        tier: "free"@,
                        label: label.deep_view(),
                        created_at: shown(at, COLUMN_FORMAT@),
                    }),
                    r,
                ),
    {
        let clock = now();
        let created_at = show(clock, COLUMN_FORMAT);
        self.create_api_key_at(api_key, label, created_at.as_str())
    }

    /// Whether an API key is known.
    pub fn validate_api_key(&self, api_key: &str) -> (r: Result<bool, StoreError>)
        ensures
            r matches Ok(b) && b == any(self@.keys, with_key(api_key@)),
    {
        Ok(self.find_key(api_key).is_some())
    }

    /// The tier of an API key.
    pub fn get_key_tier(&self, api_key: &str) -> (r: Result<String, StoreError>)
        ensures
            match first_match(self@.keys, with_key(api_key@)) {
                Some(row) => r matches Ok(tier) && tier@ == row.tier,
                None => r matches Err(e) && e@ == StoreErrorView::Db(DbError::NoRows),
            },
    {
        match self.find_key(api_key) {
            Some(i) => Ok(self.keys[i].tier.clone()),
            None => Err(StoreError::Db(DbError::NoRows)),
        }
    }

    /// Adds a row to the sessions. One whose id is not new changes nothing.
    pub fn append_session(&mut self, row: SessionRow) -> (r: Result<(), StoreError>)
        ensures
            session_start(*old(self), *final(self), row@, r),
    {
        let session_id = row.session_id.as_str();
        let known = exists_row(
            &self.sessions,
            |t: &SessionRow| -> (b: bool)
                ensures
                    b == (t@.session_id == session_id@)
                { *t.session_id.as_str() == *session_id },
            Ghost(with_session_id(session_id@)),
        );
        if known {
            return Err(StoreError::Db(DbError::DuplicateSession));
        }
        self.sessions.push(row);
        assert(self@ =~= with_session(old(self)@, row@));
        Ok(())
    }

    /// Records the start of a session at the given time.
    pub fn record_session_start_at(
        &mut self,
        session_id: &str,
        agent_id: &str,
        agent_name: &str,
        capabilities: &Vec<String>,
        connected_at: &str,
    ) -> (r: Result<(), StoreError>)
        ensures
            session_start(
                *old(self),
                *final(self),
                (SessionRowView {
                    session_id: session_id@,
                    agent_id: agent_id@,
                    agent_name: agent_name@,
                    capabilities: texts_json(capabilities.deep_view()),
                    connected_at: connected_at@,
                    disconnected_at: None,
                }),
                r,
            ),
    {
        let row = SessionRow {
            session_id: session_id.to_owned(),
            agent_id: agent_id.to_owned(),
            agent_name: agent_name.to_owned(),
            capabilities: write_texts(capabilities),
            connected_at: connected_at.to_owned(),
            disconnected_at: None,
        };
        self.append_session(row)
    }

    /// Records the start of a session; the clock says when.
    pub fn record_session_start(
        &mut self,
        session_id: &str,
        agent_id: &str,
        agent_name: &str,
        capabilities: &Vec<String>,
    ) -> (r: Result<(), StoreError>)
        ensures
            exists|at: Timestamp|
                in_calendar(at) && kept(at) && #[trigger] session_start(
                    *old(self),
                    *final(self),
                    (SessionRowView {
                        session_id: session_id@,
                        agent_id: agent_id@,
                        agent_name: agent_name@,
                        capabilities: texts_json(capabilities.deep_view()),
                        connected_at: shown(at, COLUMN_FORMAT@),
                        disconnected_at: None,
                    }),
                    r,
                ),
    {
        let clock = now();
        let connected_at = show(clock, COLUMN_FORMAT);
        self.record_session_start_at(
            session_id,
            agent_id,
            agent_name,
            capabilities,
            connected_at.as_str(),
        )
    }

    /// Records the end of a session at the given time.
    pub fn record_session_end_at(&mut self, session_id: &str, at: &str) -> (r: Result<
        (),
        StoreError,
    >)
        ensures
            r is Ok,
            final(self)@ == with_session_ended(old(self)@, session_id@, at@),
    {
        let sessions = rewrite(
            &self.sessions,
            |t: &SessionRow| -> (u: SessionRow)
                ensures
                    u@ == ended_where(session_id@, at@)(t@)
                {
                    let mut u = t.duplicate();
                    if *t.session_id.as_str() == *session_id {
                        u.disconnected_at = Some(at.to_owned());
                    }
                    u
                },
            Ghost(ended_where(session_id@, at@)),
        );
        self.sessions = sessions;
        Ok(())
    }

    /// Records the end of a session; the clock says when.
    pub fn record_session_end(&mut self, session_id: &str) -> (r: Result<(), StoreError>)
        ensures
            r is Ok,
            exists|at: Timestamp|
                in_calendar(at) && kept(at) && final(self)@ == #[trigger] with_session_ended(
                    old(self)@,
                    session_id@,
                    shown(at, COLUMN_FORMAT@),
                ),
    {
        let clock = now();
        let at = show(clock, COLUMN_FORMAT);
        self.record_session_end_at(session_id, at.as_str())
    }
}

} // verus!
