//! Holds the tables to what SQLite makes of the statements that a durable store
//! runs.

use clawchat::store::{Store, StoreError};
use rusqlite::Connection;

fn database() -> Connection {
    let conn = Connection::open_in_memory().unwrap();
    conn.execute_batch(
        "
        PRAGMA foreign_keys = ON;
        CREATE TABLE rooms (
            room_id     TEXT PRIMARY KEY,
            name        TEXT NOT NULL UNIQUE,
            description TEXT,
            parent_id   TEXT REFERENCES rooms(room_id) ON DELETE SET NULL,
            created_by  TEXT,
            created_at  TEXT NOT NULL DEFAULT (strftime('%Y-%m-%dT%H:%M:%fZ', 'now')),
            visibility  TEXT NOT NULL DEFAULT 'private',
            owner_key   TEXT,
            encrypted   INTEGER NOT NULL DEFAULT 0,
            CHECK (room_id != parent_id)
        );
        CREATE TABLE messages (
            message_id       TEXT PRIMARY KEY,
            room_id          TEXT NOT NULL REFERENCES rooms(room_id) ON DELETE CASCADE,
            agent_id         TEXT NOT NULL,
            agent_name       TEXT NOT NULL,
            content          TEXT NOT NULL,
            reply_to_message TEXT REFERENCES messages(message_id) ON DELETE SET NULL,
            metadata         TEXT DEFAULT '{}',
            created_at       TEXT NOT NULL,
            seq              INTEGER NOT NULL DEFAULT 0
        );
        CREATE TABLE subscriptions (
            subscription_id TEXT PRIMARY KEY,
            owner_key       TEXT NOT NULL
        );
        CREATE TABLE deliveries (
            delivery_id     TEXT PRIMARY KEY,
            subscription_id TEXT NOT NULL REFERENCES subscriptions(subscription_id) ON DELETE CASCADE,
            message_seq     INTEGER NOT NULL,
            next_attempt_at TEXT NOT NULL,
            UNIQUE(subscription_id, message_seq)
        );
        INSERT INTO rooms (room_id, name, visibility) VALUES ('lobby', 'lobby', 'public');
        ",
    )
    .unwrap();
    conn
}

/// A small generator of numbers, the same in every run.
fn next(state: &mut u64) -> u64 {
    *state = state.wrapping_mul(6364136223846793005).wrapping_add(1442695040888963407);
    *state >> 33
}

fn pick<'a>(state: &mut u64, from: &[&'a str]) -> &'a str {
    from[(next(state) as usize) % from.len()]
}

fn sql_error(e: rusqlite::Error) -> String {
    match e {
        rusqlite::Error::SqliteFailure(err, _) if err.extended_code == 2067 => {
            "name".to_string()
        }
        other => format!("database error: {}", other),
    }
}

fn store_error(e: StoreError) -> String {
    match e {
        StoreError::RoomNameTaken(_) => "name".to_string(),
        other => other.text(),
    }
}

fn insert_message_sql(
    conn: &Connection,
    id: &str,
    room: &str,
    reply: Option<&str>,
    time: &str,
) -> Result<i64, String> {
    conn.execute(
        "INSERT INTO messages (message_id, room_id, agent_id, agent_name, content, reply_to_message, metadata, created_at, seq)
         VALUES (?1, ?2, 'ag', 'A', 'x', ?3, '{}', ?4,
             COALESCE((SELECT MAX(seq) FROM messages WHERE room_id = ?2), 0) + 1)",
        (id, room, reply, time),
    )
    .map_err(sql_error)?;
    Ok(conn
        .query_row("SELECT seq FROM messages WHERE message_id = ?1", (id,), |row| row.get(0))
        .unwrap())
}

fn history_sql(
    conn: &Connection,
    room: &str,
    limit: u32,
    before: Option<&str>,
    since: Option<&str>,
    since_seq: Option<i64>,
) -> Vec<String> {
    let mut out: Vec<String> = Vec::new();
    if let Some(floor) = since_seq {
        let mut stmt = conn
            .prepare("SELECT message_id FROM messages WHERE room_id = ?1 AND seq > ?2 ORDER BY seq ASC LIMIT ?3")
            .unwrap();
        let rows = stmt.query_map((room, floor, limit), |row| row.get(0)).unwrap();
        for row in rows {
            out.push(row.unwrap());
        }
        return out;
    }
    if let Some(id) = since {
        let mut stmt = conn
            .prepare(
                "SELECT message_id FROM messages WHERE room_id = ?1 AND rowid > (
                     SELECT rowid FROM messages WHERE message_id = ?2
                 ) ORDER BY created_at ASC, rowid ASC LIMIT ?3",
            )
            .unwrap();
        let rows = stmt.query_map((room, id, limit), |row| row.get(0)).unwrap();
        for row in rows {
            out.push(row.unwrap());
        }
        return out;
    }
    let mut stmt = conn
        .prepare(
            "SELECT message_id FROM messages WHERE room_id = ?1 AND (?2 IS NULL OR created_at < ?2)
             ORDER BY created_at DESC, rowid DESC LIMIT ?3",
        )
        .unwrap();
    let rows = stmt.query_map((room, before, limit), |row| row.get(0)).unwrap();
    for row in rows {
        out.push(row.unwrap());
    }
    out.reverse();
    out
}

#[test]
fn rooms_and_messages_agree_with_sqlite() {
    let ids = ["lobby", "a", "b", "c", "d", "Z", "ä"];
    let room_names = ["lobby", "x", "y", "z", "Y", "ö"];
    let message_ids = ["m1", "m2", "m3", "m4", "m5", "m6", "m7", "m8"];
    let times = ["1", "2", "2", "3"];
    for seed in 1..60u64 {
        let conn = database();
        let mut store = Store::open_in_memory().unwrap();
        let mut state = seed;
        for _ in 0..60 {
            match next(&mut state) % 6 {
                0 | 1 => {
                    let id = pick(&mut state, &ids);
                    let name = pick(&mut state, &room_names);
                    let parent = if next(&mut state) % 2 == 0 {
                        None
                    } else {
                        Some(pick(&mut state, &ids))
                    };
                    let sql = conn
                        .execute(
                            "INSERT INTO rooms (room_id, name, parent_id) VALUES (?1, ?2, ?3)",
                            (id, name, parent),
                        )
                        .map(|_| ())
                        .map_err(sql_error);
                    let ours =
                        store.create_room(id, name, None, parent, None).map(|_| ()).map_err(store_error);
                    assert_eq!(sql, ours);
                }
                2 | 3 | 4 => {
                    let id = pick(&mut state, &message_ids);
                    let room = pick(&mut state, &ids);
                    let reply = if next(&mut state) % 2 == 0 {
                        None
                    } else {
                        Some(pick(&mut state, &message_ids))
                    };
                    let time = pick(&mut state, &times);
                    let sql = insert_message_sql(&conn, id, room, reply, time);
                    let ours = store
                        .insert_message_at(id, room, "ag", "A", "x", reply, "{}", time)
                        .map(|m| m.seq)
                        .map_err(store_error);
                    assert_eq!(sql, ours);
                }
                _ => {
                    if next(&mut state) % 3 == 0 {
                        let id = pick(&mut state, &ids);
                        let n = conn
                            .execute("DELETE FROM rooms WHERE room_id = ?1", (id,))
                            .unwrap();
                        assert_eq!(n > 0, store.delete_room(id).unwrap());
                    }
                }
            }
            let mut stmt = conn.prepare("SELECT room_id, parent_id FROM rooms ORDER BY name").unwrap();
            let rows = stmt
                .query_map([], |row| {
                    Ok((row.get::<_, String>(0)?, row.get::<_, Option<String>>(1)?))
                })
                .unwrap();
            let sql: Vec<(String, Option<String>)> = rows.map(|r| r.unwrap()).collect();
            let ours: Vec<(String, Option<String>)> = store
                .list_rooms(None)
                .unwrap()
                .into_iter()
                .map(|r| (r.room_id, r.parent_id))
                .collect();
            assert_eq!(sql, ours);
            let mut stmt = conn
                .prepare("SELECT message_id, reply_to_message, seq FROM messages ORDER BY rowid")
                .unwrap();
            let rows = stmt
                .query_map([], |row| {
                    Ok((
                        row.get::<_, String>(0)?,
                        row.get::<_, Option<String>>(1)?,
                        row.get::<_, i64>(2)?,
                    ))
                })
                .unwrap();
            let sql: Vec<(String, Option<String>, i64)> = rows.map(|r| r.unwrap()).collect();
            let ours: Vec<(String, Option<String>, i64)> = store
                .messages
                .iter()
                .map(|m| (m.message_id.clone(), m.reply_to_message.clone(), m.seq))
                .collect();
            assert_eq!(sql, ours);
            let room = pick(&mut state, &ids);
            let limit = (next(&mut state) % 5) as u32;
            let id = pick(&mut state, &message_ids);
            let time = pick(&mut state, &times);
            let floor = (next(&mut state) % 4) as i64;
            for (before, since, seq) in [
                (None, None, None),
                (Some(time), None, None),
                (None, Some(id), None),
                (None, None, Some(floor)),
            ] {
                let ours: Vec<String> = store
                    .history_rows(room, limit, before, since, seq)
                    .into_iter()
                    .map(|m| m.message_id)
                    .collect();
                assert_eq!(history_sql(&conn, room, limit, before, since, seq), ours);
            }
        }
    }
}

#[test]
fn backfilled_numbers_agree_with_sqlite() {
    for seed in 1..40u64 {
        let conn = database();
        let mut store = Store::open_in_memory().unwrap();
        conn.execute("INSERT INTO rooms (room_id, name) VALUES ('r', 'r')", []).unwrap();
        store.create_room("r", "r", None, None, None).unwrap();
        let mut state = seed;
        for i in 0..12 {
            let room = pick(&mut state, &["lobby", "r"]);
            let id = format!("m{i}");
            insert_message_sql(&conn, &id, room, None, "1").unwrap();
            store.insert_message_at(&id, room, "ag", "A", "x", None, "{}", "1").unwrap();
            if next(&mut state) % 2 == 0 {
                conn.execute("UPDATE messages SET seq = 0 WHERE message_id = ?1", (id,))
                    .unwrap();
                store.messages.last_mut().unwrap().seq = 0;
            }
        }
        conn.execute_batch(
            "WITH numbered AS (
                SELECT rowid, ROW_NUMBER() OVER (PARTITION BY room_id ORDER BY rowid) AS rn
                FROM messages WHERE seq = 0
            )
            UPDATE messages
                SET seq = (SELECT rn FROM numbered WHERE numbered.rowid = messages.rowid)
                WHERE rowid IN (SELECT rowid FROM numbered);",
        )
        .unwrap();
        store.backfill_message_seq();
        let mut stmt = conn.prepare("SELECT seq FROM messages ORDER BY rowid").unwrap();
        let sql: Vec<i64> =
            stmt.query_map([], |row| row.get(0)).unwrap().map(|r| r.unwrap()).collect();
        let ours: Vec<i64> = store.messages.iter().map(|m| m.seq).collect();
        assert_eq!(sql, ours);
    }
}

#[test]
fn deliveries_agree_with_sqlite() {
    let subs = ["s1", "s2", "s3"];
    let delivery_ids = ["d1", "d2", "d3", "d4", "d5"];
    let times = ["1", "2", "3"];
    for seed in 1..40u64 {
        let conn = database();
        let mut store = Store::open_in_memory().unwrap();
        let mut state = seed;
        for _ in 0..40 {
            let sub = pick(&mut state, &subs);
            match next(&mut state) % 6 {
                0 => {
                    let sql = conn
                        .execute(
                            "INSERT INTO subscriptions (subscription_id, owner_key) VALUES (?1, 'k')",
                            (sub,),
                        )
                        .map(|_| ())
                        .map_err(sql_error);
                    let none: Vec<String> = Vec::new();
                    let ours = store
                        .create_subscription(sub, "r", "k", "u", "s", &none, None, None, false, 0)
                        .map(|_| ())
                        .map_err(store_error);
                    assert_eq!(sql, ours);
                }
                1 => {
                    let n = conn
                        .execute(
                            "DELETE FROM subscriptions WHERE subscription_id = ?1 AND owner_key = 'k'",
                            (sub,),
                        )
                        .unwrap();
                    assert_eq!(n > 0, store.delete_subscription(sub, "k").unwrap());
                }
                2 => {
                    let id = pick(&mut state, &delivery_ids);
                    conn.execute("DELETE FROM deliveries WHERE delivery_id = ?1", (id,))
                        .unwrap();
                    store.delete_delivery(id).unwrap();
                }
                _ => {
                    let id = pick(&mut state, &delivery_ids);
                    let seq = (next(&mut state) % 3) as i64;
                    let time = pick(&mut state, &times);
                    let sql = conn
                        .execute(
                            "INSERT INTO deliveries VALUES (?1, ?2, ?3, ?4)",
                            (id, sub, seq, time),
                        )
                        .is_ok();
                    let row = clawchat::store::DeliveryRow {
                        delivery_id: id.to_string(),
                        subscription_id: sub.to_string(),
                        message_seq: seq,
                        message_id: "m".to_string(),
                        next_attempt_at: time.to_string(),
                        attempts: 0,
                        last_error: None,
                    };
                    assert_eq!(sql, store.append_delivery(row));
                }
            }
            let time = pick(&mut state, &times);
            let limit = (next(&mut state) % 4) as usize;
            let mut stmt = conn
                .prepare(
                    "SELECT delivery_id FROM deliveries WHERE next_attempt_at <= ?1
                     ORDER BY next_attempt_at ASC, rowid ASC LIMIT ?2",
                )
                .unwrap();
            let sql: Vec<String> = stmt
                .query_map((time, limit as i64), |row| row.get(0))
                .unwrap()
                .map(|r| r.unwrap())
                .collect();
            let ours: Vec<String> = store
                .due_deliveries(time, limit)
                .into_iter()
                .map(|d| d.delivery_id)
                .collect();
            assert_eq!(sql, ours);
        }
    }
}
