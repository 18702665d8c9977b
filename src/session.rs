use crate::book::{
    chosen_as, choose_book_move, entries_for, selects, ticket_of, total_of, BookEntry,
};
use crate::castling::CastlingRights;
use crate::request::TimeControl;
use crate::square::move_text;
use crate::time::{allowance_of, sat_sub, TimeManager, DEFAULT_SHARE_PER_MILLE};
use vstd::prelude::*;

verus! {

/// One progress report of the search engine, with its moves as text.
#[derive(Clone, Debug)]
pub struct EngineReport {
    pub mv: String,
    pub value: String,
    pub nodes: u32,
    pub depth: u8,
    pub principal_variation: Vec<String>,
    pub transposition_table_size: usize,
    pub transposition_table_entries: usize,
}

/// A message to the caller. A request yields zero or more answers, then
/// one `Terminate`.
#[derive(Clone, Debug)]
pub enum Outbound {
    /// A move taken from the opening table, with its weight.
    Book { mv: String, weight: u16 },
    /// A report of the engine, with the milliseconds since the session began.
    Engine { report: EngineReport, time_millis: u64 },
    /// End of the answers to this request.
    Terminate,
}

/// The time bookkeeping of one search session. Times are milliseconds of a
/// clock that the caller reads.
#[derive(Clone, Copy, Debug, PartialEq, Eq, Structural)]
pub struct Handler {
    pub time_manager: TimeManager,
    pub last_update: u64,
    pub time_left: u64,
    pub start_time: u64,
}

/// How a request begins: answered from the table, or by a search.
#[derive(Clone, Debug)]
pub enum Start {
    Answer(Outbound),
    Search(Handler),
}

/// `m` is the table's answer for `key`: the entry that the ticket drawn by
/// `unit / 2^32` falls on, corrected under `rights`, as text.
pub open spec fn is_book_answer(
    m: Outbound,
    book: Seq<BookEntry>,
    key: u64,
    rights: CastlingRights,
    unit: u32,
) -> bool {
    exists|i: int, e: BookEntry|
        selects(entries_for(book, key), ticket_of(unit, total_of(entries_for(book, key))), i)
            && chosen_as(e, entries_for(book, key), i, rights) && (m matches Outbound::Book {
            mv,
            weight,
        } && mv@ == move_text(e.mv) && weight == e.weight)
}

/// The time manager that a request's time control asks for.
pub open spec fn manager_for(time: TimeControl) -> TimeManager {
    match time {
        TimeControl::TimeLeft(t) => TimeManager::Decrementing {
            remaining: t,
            share_per_mille: DEFAULT_SHARE_PER_MILLE,
            increment: 0,
            last_nodes: 0,
            last_depth: 0,
            granted: allowance_of(t as int, DEFAULT_SHARE_PER_MILLE as int, 0) as u64,
        },
        TimeControl::ThinkTime(t) => TimeManager::Fixed { think_time: t, spent: 0 },
    }
}

/// A session that begins at `now`.
pub open spec fn fresh_handler(tm: TimeManager, now: u64) -> Handler {
    Handler { time_manager: tm, last_update: now, time_left: tm.current_spec() as u64, start_time: now }
}

impl Handler {
    /// The time left is the one its manager last handed out.
    pub open spec fn wf(self) -> bool {
        self.time_left == self.time_manager.current_spec()
    }

    /// The time since the last report has reached the time left.
    pub open spec fn is_time_up(self, now: u64) -> bool {
        sat_sub(now as int, self.last_update as int) >= self.time_left
    }

    /// The session after a report at `now` of an iteration that visited `nodes` at `depth`.
    pub open spec fn after_report(self, now: u64, nodes: u32, depth: u8) -> Handler {
        let elapsed = sat_sub(now as int, self.last_update as int) as u64;
        Handler {
            time_manager: self.time_manager.updated(nodes, depth, elapsed),
            last_update: now,
            time_left: self.time_manager.time_left_after(nodes, depth, elapsed) as u64,
            start_time: self.start_time,
        }
    }

    pub fn new(time_manager: TimeManager, now: u64) -> (r: Handler)
        ensures
            r == fresh_handler(time_manager, now),
            r.wf(),
    {
        Handler {
            time_manager,
            last_update: now,
            time_left: time_manager.initial_time_left(),
            start_time: now,
        }
    }

    /// Whether the search must stop: the time since the last report is at
    /// least the time left. A clock read earlier than the last report counts
    /// as no time passed.
    pub fn time_up(&self, now: u64) -> (r: bool)
        ensures
            r == self.is_time_up(now),
    {
        now.saturating_sub(self.last_update) >= self.time_left
    }

    /// Takes a report of the engine at `now`: returns the message that
    /// forwards it, and updates the time left from the time since the last
    /// report. Under a total budget the time left never goes up.
    pub fn search_result(&mut self, now: u64, report: EngineReport) -> (msg: Outbound)
        requires
            old(self).wf(),
        ensures
            *final(self) == old(self).after_report(now, report.nodes, report.depth),
            final(self).wf(),
            old(self).time_manager is Decrementing ==> final(self).time_left <= old(self).time_left,
            msg == (Outbound::Engine {
                report,
                time_millis: sat_sub(now as int, old(self).start_time as int) as u64,
            }),
    {
        let time_millis = now.saturating_sub(self.start_time);
        let elapsed = now.saturating_sub(self.last_update);
        self.time_left = self.time_manager.update(report.nodes, report.depth, elapsed);
        self.last_update = now;
        Outbound::Engine { report, time_millis }
    }
}

/// The time manager that a request's time control asks for.
pub fn time_manager_for(time: TimeControl) -> (r: TimeManager)
    ensures
        r == manager_for(time),
{
    match time {
        TimeControl::TimeLeft(t) => TimeManager::new(t, DEFAULT_SHARE_PER_MILLE, 0),
        TimeControl::ThinkTime(t) => TimeManager::new(0, 0, t),
    }
}

/// The answer from the table for the position `key`, if one is owed: the
/// entry chosen by weight with the random fraction `unit / 2^32`, its
/// castling notation corrected under `rights`, as text.
pub fn book_answer(book: &Vec<BookEntry>, key: u64, rights: CastlingRights, unit: u32) -> (r:
    Option<Outbound>)
    ensures
        r is None <==> total_of(entries_for(book@, key)) == 0,
        r matches Some(m) ==> is_book_answer(m, book@, key, rights, unit),
{
    match choose_book_move(book, key, rights, unit) {
        None => None,
        Some(e) => Some(Outbound::Book { mv: e.mv.to_text(), weight: e.weight }),
    }
}

/// Begins a request: with `use_book`, answers from the table when it has a
/// move for the position; otherwise starts a search session at `now` under
/// the request's time control.
pub fn start_request(
    book: &Vec<BookEntry>,
    use_book: bool,
    key: u64,
    rights: CastlingRights,
    unit: u32,
    time: TimeControl,
    now: u64,
) -> (r: Start)
    ensures
        use_book && total_of(entries_for(book@, key)) != 0 ==> (r matches Start::Answer(m)
            && is_book_answer(m, book@, key, rights, unit)),
        !(use_book && total_of(entries_for(book@, key)) != 0) ==> r == Start::Search(
            fresh_handler(manager_for(time), now),
        ),
{
    if use_book {
        match book_answer(book, key, rights, unit) {
            Some(m) => {
                return Start::Answer(m);
            },
            None => {},
        }
    }
    Start::Search(Handler::new(time_manager_for(time), now))
}

/// Relies on chess's `Board::castle_rights` and `CastleRights::has_kingside`
/// / `has_queenside`: the castling rights that the position holds.
#[verifier::external_body]
fn castling_rights_of(position: &chess::Board) -> (r: CastlingRights) {
    let white = position.castle_rights(chess::Color::White);
    let black = position.castle_rights(chess::Color::Black);
    CastlingRights {
        white_king_side: white.has_kingside(),
        white_queen_side: white.has_queenside(),
        black_king_side: black.has_kingside(),
        black_queen_side: black.has_queenside(),
    }
}

/// Begins a request on the position reached, whose table key is `key`: the
/// castling rights that correct a book move are the position's own.
pub fn start_position_request(
    book: &Vec<BookEntry>,
    use_book: bool,
    key: u64,
    position: &chess::Board,
    unit: u32,
    time: TimeControl,
    now: u64,
) -> (r: Start)
    ensures
        use_book && total_of(entries_for(book@, key)) != 0 ==> (r matches Start::Answer(m)
            && exists|rights: CastlingRights| #[trigger] is_book_answer(m, book@, key, rights, unit)),
        !(use_book && total_of(entries_for(book@, key)) != 0) ==> r == Start::Search(
            fresh_handler(manager_for(time), now),
        ),
{
    let rights = castling_rights_of(position);
    start_request(book, use_book, key, rights, unit, time, now)
}

/// With a think time of zero, a fresh session is out of time at once,
/// whatever the clock reads: no engine report is asked for.
pub proof fn lemma_zero_think_time_stops_at_once(start: u64, now: u64)
    ensures
        fresh_handler(manager_for(TimeControl::ThinkTime(0)), start).is_time_up(now),
{
}

/// A fixed-allocation session whose spent time is the time since it began.
pub open spec fn fixed_on_wall_clock(h: Handler) -> bool {
    match h.time_manager {
        TimeManager::Fixed { think_time, spent } => h.start_time <= h.last_update && spent
            == h.last_update - h.start_time && h.time_left == sat_sub(
            think_time as int,
            spent as int,
        ),
        TimeManager::Decrementing { .. } => false,
    }
}

/// With a fixed allocation, a session begins on the wall clock, and each
/// report at a later clock reading keeps it there.
pub proof fn lemma_fixed_mode_keeps_wall_clock(
    think_time: u64,
    start: u64,
    h: Handler,
    now: u64,
    nodes: u32,
    depth: u8,
)
    ensures
        fixed_on_wall_clock(fresh_handler(manager_for(TimeControl::ThinkTime(think_time)), start)),
        fixed_on_wall_clock(h) && h.last_update <= now ==> fixed_on_wall_clock(
            h.after_report(now, nodes, depth),
        ),
{
}

/// With a fixed allocation on the wall clock, the session is out of time
/// exactly when the time since it began reaches the think time.
pub proof fn lemma_fixed_mode_stops_at_think_time(h: Handler, now: u64)
    requires
        fixed_on_wall_clock(h),
        h.last_update <= now,
    ensures
        h.is_time_up(now) <==> now - h.start_time >= h.time_manager->think_time,
{
}

} // verus!
