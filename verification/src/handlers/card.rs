//! The card lifecycle engine: generation, activation, verification with
//! auto-activation on first use, listing, deletion, and export.
//!
//! Note that verification doubles as first-use activation: a
//! verification-only caller starts the code's validity clock. This is
//! intentional; the window begins at first check-in, not at generation.

use crate::auth::AuthenticatedUser;
use crate::codec::{int_str, i64_to_string, parse_u64_range, spec_parse_u64};
use crate::config::{AppConfig, MAX_TIMESTAMP, SECONDS_PER_DAY};
use crate::errors::AppError;
use crate::models::{ActivateCardRequest, Card, CreateCardRequest, VerifyCardRequest};
use crate::store::cards::{
    batch_insertable, cas_activate, code_idx, codes_unique, has_code, has_id_match, id_match_idx,
    lemma_code_idx_is, owner_ok, stamped, CardStore,
};
use crate::models::user::UserRole;
use rand::Rng;
use vstd::prelude::*;
use vstd::string::StrSliceExecFns;
use vstd::string::StringExecFns;

verus! {

/// A character of the code alphabet: ASCII digits and letters.
pub open spec fn spec_alphanumeric(c: char) -> bool {
    ('0' <= c && c <= '9') || ('A' <= c && c <= 'Z') || ('a' <= c && c <= 'z')
}

/// Relies on rand's thread rng over the Alphanumeric distribution: a
/// fresh random string of exactly `len` characters, each drawn from the
/// alphanumeric alphabet. Nothing more is promised of a random value.
#[verifier::external_body]
fn random_code(len: usize) -> (r: String)
    ensures
        r@.len() == len as nat,
        forall|i: int| 0 <= i < r@.len() ==> spec_alphanumeric(#[trigger] r@[i]),
{
    rand::thread_rng().sample_iter(&rand::distributions::Alphanumeric).take(len).map(
        char::from,
    ).collect()
}

/// The RFC 3339 rendering of `ts` seconds since the Unix epoch, in UTC:
/// a deterministic function of the timestamp alone.
pub uninterp spec fn rfc3339_of(ts: i64) -> Seq<char>;

/// Relies on chrono's DateTime::from_timestamp (defined on this range;
/// it returns None only out of range, and this range stays far inside
/// chrono's representable years) and DateTime::to_rfc3339.
#[verifier::external_body]
fn format_rfc3339(ts: i64) -> (r: String)
    requires
        -4000000000000 <= ts <= 4000000000000,
    ensures
        r@ == rfc3339_of(ts),
{
    chrono::DateTime::<chrono::Utc>::from_timestamp(ts, 0).expect(
        "timestamp in range",
    ).to_rfc3339()
}

/// The requested batch size clamped into [1, 100] — silently, never an
/// error.
pub open spec fn clamp_count(c: i32) -> int {
    if c < 1 {
        1
    } else if c > 100 {
        100
    } else {
        c as int
    }
}

/// Generates a batch of fresh cards for the caller and persists it
/// all-or-nothing.
pub fn generate_card(
    store: &mut CardStore,
    user: &AuthenticatedUser,
    req: &CreateCardRequest,
    config: &AppConfig,
    now: i64,
) -> (r: Result<Vec<Card>, AppError>)
    requires
        old(store).wf(),
        0 <= now <= MAX_TIMESTAMP,
    ensures
        final(store).wf(),
        match r {
            Ok(cards) => {
                &&& cards@.len() == clamp_count(req.count)
                &&& final(store).cards@ == old(store).cards@ + cards@
                &&& final(store).next_id == old(store).next_id + cards@.len()
                &&& forall|j: int|
                    0 <= j < cards@.len() ==> {
                        let c = #[trigger] cards@[j];
                        &&& c.wf()
                        &&& !c.is_activated
                        &&& c.duration_days == req.duration_days
                        &&& c.created_at == now
                        &&& c.created_by == Some(user.user_id)
                        &&& c.created_by_username == Some(user.username)
                        &&& c.used_by is None
                        &&& c.used_by_identifier is None
                        &&& c.id == Some((old(store).next_id + j) as u64)
                        &&& c.card_number@.len() == config.card_length
                        &&& forall|k: int|
                            0 <= k < c.card_number@.len() ==> spec_alphanumeric(
                                #[trigger] c.card_number@[k],
                            )
                    }
                &&& forall|i: int, j: int|
                    0 <= i < j < cards@.len() ==> (#[trigger] cards@[i].card_number@) != (
                    #[trigger] cards@[j].card_number@)
            },
            Err(e) => e is PersistenceError && *final(store) == *old(store),
        },
        // Success is owed where no random draw can collide: a single
        // card into an empty store.
        old(store).cards@.len() == 0 && clamp_count(req.count) == 1 && old(store).next_id
            < u64::MAX ==> r is Ok,
{
    let count: usize = if req.count < 1 {
        1
    } else if req.count > 100 {
        100
    } else {
        req.count as usize
    };
    let mut batch: Vec<Card> = Vec::new();
    let mut k: usize = 0;
    while k < count
        invariant
            0 <= k <= count,
            count == clamp_count(req.count),
            0 <= now <= MAX_TIMESTAMP,
            batch@.len() == k,
            forall|j: int|
                0 <= j < k ==> {
                    let c = #[trigger] batch@[j];
                    &&& c.wf()
                    &&& c.id is None
                    &&& !c.is_activated
                    &&& c.duration_days == req.duration_days
                    &&& c.created_at == now
                    &&& c.created_by == Some(user.user_id)
                    &&& c.created_by_username == Some(user.username)
                    &&& c.used_by is None
                    &&& c.used_by_identifier is None
                    &&& c.card_number@.len() == config.card_length
                    &&& forall|k2: int|
                        0 <= k2 < c.card_number@.len() ==> spec_alphanumeric(
                            #[trigger] c.card_number@[k2],
                        )
                },
        decreases count - k,
    {
        let code = random_code(config.card_length);
        let mut card = Card::new(code, req.duration_days, now);
        card.created_by = Some(user.user_id);
        card.created_by_username = Some(user.username.clone());
        batch.push(card);
        k = k + 1;
    }
    let ghost batch_snap = batch@;
    let ghost base = store.next_id;
    match store.insert_many(batch) {
        Ok(cards) => {
            proof {
                let st = stamped(batch_snap, base);
                assert forall|j: int| 0 <= j < cards@.len() implies {
                    let c = #[trigger] cards@[j];
                    &&& c.wf()
                    &&& !c.is_activated
                    &&& c.duration_days == req.duration_days
                    &&& c.created_at == now
                    &&& c.created_by == Some(user.user_id)
                    &&& c.created_by_username == Some(user.username)
                    &&& c.used_by is None
                    &&& c.used_by_identifier is None
                    &&& c.id == Some((base + j) as u64)
                    &&& c.card_number@.len() == config.card_length
                    &&& forall|k2: int|
                        0 <= k2 < c.card_number@.len() ==> spec_alphanumeric(
                            #[trigger] c.card_number@[k2],
                        )
                } by {
                    assert(cards@[j] == st[j]);
                    assert(batch_snap[j].wf());
                    assert(forall|k2: int|
                        0 <= k2 < batch_snap[j].card_number@.len() ==> spec_alphanumeric(
                            #[trigger] batch_snap[j].card_number@[k2],
                        ));
                }
            }
            Ok(cards)
        },
        Err(e) => {
            proof {
                if old(store).cards@.len() == 0 && clamp_count(req.count) == 1 && old(
                    store,
                ).next_id < u64::MAX {
                    assert(batch_snap.len() == 1);
                    assert(!has_code(old(store).cards@, batch_snap[0].card_number@));
                    assert(batch_insertable(old(store).cards@, batch_snap));
                }
            }
            Err(e)
        },
    }
}

/// Activates the card with this code: exactly the read / flag check /
/// conditional write / re-read sequence, where the conditional write is
/// the one atomic step.
pub fn activate_card(store: &mut CardStore, req: &ActivateCardRequest, now: i64) -> (r: Result<
    Card,
    AppError,
>)
    requires
        old(store).wf(),
        0 <= now <= MAX_TIMESTAMP,
    ensures
        final(store).wf(),
        final(store).next_id == old(store).next_id,
        !has_code(old(store).cards@, req.card_number@) ==> (r matches Err(e) && e is NotFound)
            && *final(store) == *old(store),
        has_code(old(store).cards@, req.card_number@) && old(store).cards@[code_idx(
            old(store).cards@,
            req.card_number@,
        )].is_activated ==> r == Err::<Card, AppError>(
            AppError::AlreadyActivated(Some(old(store).cards@[code_idx(old(store).cards@, req.card_number@)])),
        ) && *final(store) == *old(store),
        has_code(old(store).cards@, req.card_number@) && !old(store).cards@[code_idx(
            old(store).cards@,
            req.card_number@,
        )].is_activated ==> r == Ok::<Card, AppError>(
            old(store).cards@[code_idx(old(store).cards@, req.card_number@)].activated_spec(now, None, None),
        ) && final(store).cards@ == old(store).cards@.update(
            code_idx(old(store).cards@, req.card_number@),
            old(store).cards@[code_idx(old(store).cards@, req.card_number@)].activated_spec(now, None, None),
        ),
{
    let card = match store.find_by_code(req.card_number.as_str()) {
        Some(c) => c,
        None => {
            return Err(AppError::NotFound);
        },
    };
    if card.is_activated {
        return Err(AppError::AlreadyActivated(Some(card)));
    }
    let modified = store.conditional_activate(req.card_number.as_str(), now, None, None);
    if modified == 0 {
        // The read above saw the flag clear, so the conditional write
        // cannot have missed; the arm mirrors the race-lost outcome.
        return Err(AppError::AlreadyActivated(None));
    }
    proof {
        let ghost idx = code_idx(old(store).cards@, req.card_number@);
        assert(store.cards@[idx].card_number@ == req.card_number@);
        lemma_code_idx_is(store.cards@, req.card_number@, idx);
    }
    match store.find_by_code(req.card_number.as_str()) {
        Some(c) => Ok(c),
        None => Err(AppError::NotFound),
    }
}

/// Whether an activated card is still inside its validity window at
/// `now` (the window closes at the expiry instant itself).
pub open spec fn card_valid_at(c: Card, now: i64) -> bool {
    now < c.expires_at->0
}

/// The executable side of `card_valid_at`, for a card whose expiry is
/// stamped.
pub fn card_is_valid_at(c: &Card, now: i64) -> (r: bool)
    requires
        c.expires_at is Some,
    ensures
        r == card_valid_at(*c, now),
{
    match c.expires_at {
        Some(e) => now < e,
        None => false,
    }
}

/// Verifies the card with this code. An unactivated card is activated
/// on the spot (auto-claim on first verify) and returned fresh; an
/// activated card is returned if still valid, and reported `Expired` —
/// with the record attached — once its window has elapsed.
pub fn verify_card(
    store: &mut CardStore,
    req: &VerifyCardRequest,
    now: i64,
) -> (r: Result<Card, AppError>)
    requires
        old(store).wf(),
        0 <= now <= MAX_TIMESTAMP,
    ensures
        final(store).wf(),
        final(store).next_id == old(store).next_id,
        !has_code(old(store).cards@, req.card_number@) ==> (r matches Err(e) && e is NotFound)
            && *final(store) == *old(store),
        has_code(old(store).cards@, req.card_number@) ==> {
            let pre = old(store).cards@[code_idx(old(store).cards@, req.card_number@)];
            &&& !pre.is_activated ==> r == Ok::<Card, AppError>(
                pre.activated_spec(now, None, req.user_identifier),
            ) && final(store).cards@ == old(store).cards@.update(
                code_idx(old(store).cards@, req.card_number@),
                pre.activated_spec(now, None, req.user_identifier),
            )
            &&& pre.is_activated && card_valid_at(pre, now) ==> r == Ok::<Card, AppError>(pre)
                && *final(store) == *old(store)
            &&& pre.is_activated && !card_valid_at(pre, now) ==> r == Err::<Card, AppError>(
                AppError::Expired(pre),
            ) && *final(store) == *old(store)
        },
{
    let card = match store.find_by_code(req.card_number.as_str()) {
        Some(c) => c,
        None => {
            return Err(AppError::NotFound);
        },
    };
    if !card.is_activated {
        let identifier = crate::models::clone_opt_string(&req.user_identifier);
        let modified = store.conditional_activate(req.card_number.as_str(), now, None, identifier);
        if modified == 0 {
            // As in activation: the flag was just seen clear.
            return Err(AppError::AlreadyActivated(None));
        }
        proof {
            let ghost idx = code_idx(old(store).cards@, req.card_number@);
            assert(store.cards@[idx].card_number@ == req.card_number@);
            lemma_code_idx_is(store.cards@, req.card_number@, idx);
        }
        return match store.find_by_code(req.card_number.as_str()) {
            Some(c) => Ok(c),
            None => Err(AppError::NotFound),
        };
    }
    let expires_at = match card.expires_at {
        Some(e) => e,
        None => {
            // A well-formed activated card always carries its expiry.
            return Err(AppError::ValidationError);
        },
    };
    if now < expires_at {
        Ok(card)
    } else {
        Err(AppError::Expired(card))
    }
}

proof fn lemma_filter_all_cards(s: Seq<Card>, pred: spec_fn(Card) -> bool)
    requires
        forall|i: int| 0 <= i < s.len() ==> pred(#[trigger] s[i]),
    ensures
        s.filter(pred) == s,
    decreases s.len(),
{
    reveal(Seq::filter);
    if s.len() > 0 {
        let t = s.drop_last();
        assert(forall|i: int| 0 <= i < t.len() ==> pred(#[trigger] t[i]));
        lemma_filter_all_cards(t, pred);
        assert(s.filter(pred) =~= s);
    } else {
        assert(s.filter(pred) =~= s);
    }
}

/// The cards visible to the caller: an admin sees every card, anyone
/// else only the cards they created.
pub fn get_all_cards(store: &CardStore, user: &AuthenticatedUser) -> (r: Vec<Card>)
    requires
        store.wf(),
    ensures
        user.role == UserRole::Admin ==> r@ == store.cards@,
        user.role != UserRole::Admin ==> r@ == store.cards@.filter(
            |c: Card| owner_ok(c, Some(user.user_id)),
        ),
{
    if user.role == UserRole::Admin {
        let r = store.list(None);
        proof {
            assert(forall|i: int|
                0 <= i < store.cards@.len() ==> owner_ok(#[trigger] store.cards@[i], None));
            lemma_filter_all_cards(store.cards@, |c: Card| owner_ok(c, None));
        }
        r
    } else {
        store.list(Some(user.user_id))
    }
}

/// Law: ownership filtering — a non-admin's listing never contains a
/// card created by anyone else.
pub proof fn lemma_ownership_filtering(s: Seq<Card>, user_id: u64, i: int)
    requires
        0 <= i < s.filter(|c: Card| owner_ok(c, Some(user_id))).len(),
    ensures
        s.filter(|c: Card| owner_ok(c, Some(user_id)))[i].created_by == Some(user_id),
{
    s.lemma_filter_pred(|c: Card| owner_ok(c, Some(user_id)), i);
}

/// Deletes a card by its (decimal) id. An admin may delete any card; a
/// non-admin only their own, and a card that exists but is not theirs
/// reads as `NotFound`.
pub fn delete_card(store: &mut CardStore, user: &AuthenticatedUser, id_text: &str) -> (r: Result<
    (),
    AppError,
>)
    requires
        old(store).wf(),
    ensures
        final(store).wf(),
        final(store).next_id == old(store).next_id,
        spec_parse_u64(id_text@) is None ==> (r matches Err(e) && e is ValidationError)
            && *final(store) == *old(store),
        spec_parse_u64(id_text@) matches Some(id) ==> {
            let owner = if user.role == UserRole::Admin {
                None
            } else {
                Some(user.user_id)
            };
            &&& has_id_match(old(store).cards@, id, owner) ==> r == Ok::<(), AppError>(())
                && final(store).cards@ == old(store).cards@.remove(
                id_match_idx(old(store).cards@, id, owner),
            )
            &&& !has_id_match(old(store).cards@, id, owner) ==> (r matches Err(e)
                && e is NotFound) && *final(store) == *old(store)
        },
{
    let n = id_text.unicode_len();
    proof {
        assert(id_text@.subrange(0, n as int) =~= id_text@);
    }
    let id = match parse_u64_range(id_text, 0, n) {
        Some(v) => v,
        None => {
            return Err(AppError::ValidationError);
        },
    };
    let owner = if user.role == UserRole::Admin {
        None
    } else {
        Some(user.user_id)
    };
    let deleted = store.delete(id, owner);
    if deleted == 0 {
        Err(AppError::NotFound)
    } else {
        Ok(())
    }
}

/// The timestamp text used in the export: the calendar form where the
/// instant is representable, the raw second count otherwise.
pub open spec fn time_text(ts: i64) -> Seq<char> {
    if -4000000000000 <= ts <= 4000000000000 {
        rfc3339_of(ts)
    } else {
        int_str(ts as int)
    }
}

pub open spec fn opt_time_text(t: Option<i64>) -> Seq<char> {
    match t {
        Some(ts) => time_text(ts),
        None => "-"@,
    }
}

pub open spec fn status_text(activated: bool) -> Seq<char> {
    if activated {
        "activated"@
    } else {
        "unactivated"@
    }
}

/// One export row: code, window length, status, the three instants.
pub open spec fn csv_row(c: Card) -> Seq<char> {
    c.card_number@ + ","@ + int_str(c.duration_days as int) + ","@ + status_text(c.is_activated)
        + ","@ + opt_time_text(c.activated_at) + ","@ + opt_time_text(c.expires_at) + ","@
        + time_text(c.created_at) + "\n"@
}

pub open spec fn csv_rows(s: Seq<Card>) -> Seq<char>
    decreases s.len(),
{
    if s.len() == 0 {
        Seq::empty()
    } else {
        csv_rows(s.drop_last()) + csv_row(s.last())
    }
}

pub open spec fn csv_header() -> Seq<char> {
    "code,duration_days,status,activated_at,expires_at,created_at\n"@
}

/// The whole export: header line, then one row per card in store order.
pub open spec fn csv_of(s: Seq<Card>) -> Seq<char> {
    csv_header() + csv_rows(s)
}

fn time_text_exec(ts: i64) -> (r: String)
    ensures
        r@ == time_text(ts),
{
    if -4000000000000 <= ts && ts <= 4000000000000 {
        format_rfc3339(ts)
    } else {
        i64_to_string(ts)
    }
}

fn opt_time_text_exec(t: &Option<i64>) -> (r: String)
    ensures
        r@ == opt_time_text(*t),
{
    match t {
        Some(ts) => time_text_exec(*ts),
        None => "-".to_owned(),
    }
}

fn csv_row_exec(c: &Card) -> (r: String)
    ensures
        r@ == csv_row(*c),
{
    let mut row = c.card_number.clone();
    row.append(",");
    let dur = i64_to_string(c.duration_days as i64);
    row.append(dur.as_str());
    row.append(",");
    if c.is_activated {
        row.append("activated");
    } else {
        row.append("unactivated");
    }
    row.append(",");
    let at = opt_time_text_exec(&c.activated_at);
    row.append(at.as_str());
    row.append(",");
    let et = opt_time_text_exec(&c.expires_at);
    row.append(et.as_str());
    row.append(",");
    let ct = time_text_exec(c.created_at);
    row.append(ct.as_str());
    row.append("\n");
    proof {
        assert(row@ =~= csv_row(*c));
    }
    row
}

/// Flattens every card into one tabular text: a read-side projection
/// with no state change.
pub fn export_cards(store: &CardStore) -> (r: String)
    requires
        store.wf(),
    ensures
        r@ == csv_of(store.cards@),
{
    let mut out = "code,duration_days,status,activated_at,expires_at,created_at\n".to_owned();
    let n = store.cards.len();
    proof {
        assert(store.cards@.take(0) =~= Seq::<Card>::empty());
        assert(out@ =~= csv_header() + csv_rows(store.cards@.take(0)));
    }
    let mut i: usize = 0;
    while i < n
        invariant
            0 <= i <= n == store.cards@.len(),
            store.wf(),
            out@ == csv_header() + csv_rows(store.cards@.take(i as int)),
        decreases n - i,
    {
        let row = csv_row_exec(&store.cards[i]);
        out.append(row.as_str());
        proof {
            assert(store.cards@.take(i as int + 1).drop_last() =~= store.cards@.take(i as int));
            assert(store.cards@.take(i as int + 1).last() == store.cards@[i as int]);
            assert(out@ =~= csv_header() + csv_rows(store.cards@.take(i as int + 1)));
        }
        i = i + 1;
    }
    proof {
        assert(store.cards@.take(n as int) =~= store.cards@);
    }
    out
}

/// A sequence of conditional activation attempts on one code, run in
/// order; the count is how many of them modified the store.
pub open spec fn run_activations(
    s: Seq<Card>,
    code: Seq<char>,
    attempts: Seq<(i64, Option<u64>, Option<String>)>,
) -> (Seq<Card>, int)
    decreases attempts.len(),
{
    if attempts.len() == 0 {
        (s, 0)
    } else {
        let prefix = run_activations(s, code, attempts.drop_last());
        let a = attempts.last();
        let step = cas_activate(prefix.0, code, a.0, a.1, a.2);
        (step.0, prefix.1 + step.1)
    }
}

/// Law: activation is terminal — on a store whose card with this code is
/// already activated, a conditional activation modifies nothing.
pub proof fn lemma_activation_terminal(
    s: Seq<Card>,
    code: Seq<char>,
    now: i64,
    used_by: Option<u64>,
    used_by_identifier: Option<String>,
)
    requires
        has_code(s, code),
        s[code_idx(s, code)].is_activated,
    ensures
        cas_activate(s, code, now, used_by, used_by_identifier) == (s, 0int),
{
}

/// Law: at-most-once activation. Starting from a store holding this code
/// unactivated, any number of conditional activation attempts — in any
/// order, whatever they stamp — modify the store exactly once in total:
/// the first attempt wins and every later one reports zero.
pub proof fn lemma_at_most_once_activation(
    s: Seq<Card>,
    code: Seq<char>,
    attempts: Seq<(i64, Option<u64>, Option<String>)>,
)
    requires
        codes_unique(s),
        has_code(s, code),
        !s[code_idx(s, code)].is_activated,
    ensures
        ({
            let outcome = run_activations(s, code, attempts);
            &&& outcome.1 == if attempts.len() == 0 {
                0int
            } else {
                1int
            }
            &&& attempts.len() > 0 ==> codes_unique(outcome.0) && has_code(outcome.0, code)
                && outcome.0[code_idx(outcome.0, code)].is_activated
        }),
    decreases attempts.len(),
{
    if attempts.len() > 0 {
        let prefix_attempts = attempts.drop_last();
        lemma_at_most_once_activation(s, code, prefix_attempts);
        let prefix = run_activations(s, code, prefix_attempts);
        let a = attempts.last();
        if prefix_attempts.len() == 0 {
            let idx = code_idx(s, code);
            let updated = s.update(idx, s[idx].activated_spec(a.0, a.1, a.2));
            assert(cas_activate(s, code, a.0, a.1, a.2) == (updated, 1int));
            assert forall|x: int, y: int| 0 <= x < y < updated.len() implies (
            #[trigger] updated[x].card_number@) != (#[trigger] updated[y].card_number@) by {
                assert(s[x].card_number@ != s[y].card_number@);
            }
            assert(updated[idx].card_number@ == code);
            lemma_code_idx_is(updated, code, idx);
        } else {
            lemma_activation_terminal(prefix.0, code, a.0, a.1, a.2);
        }
    }
}

/// Law: in a race of any number of conditional activation attempts on
/// one fresh code, the first attempt is the single winner: its write
/// modifies the store, and the write of every later attempt finds the
/// record already activated and modifies nothing.
pub proof fn lemma_race_single_winner(
    s: Seq<Card>,
    code: Seq<char>,
    attempts: Seq<(i64, Option<u64>, Option<String>)>,
    i: int,
)
    requires
        codes_unique(s),
        has_code(s, code),
        !s[code_idx(s, code)].is_activated,
        1 <= i < attempts.len(),
    ensures
        cas_activate(s, code, attempts[0].0, attempts[0].1, attempts[0].2).1 == 1,
        ({
            let before = run_activations(s, code, attempts.take(i));
            cas_activate(before.0, code, attempts[i].0, attempts[i].1, attempts[i].2) == (
                before.0,
                0int,
            )
        }),
{
    let t1 = attempts.take(1);
    assert(t1.drop_last() =~= Seq::<(i64, Option<u64>, Option<String>)>::empty());
    assert(t1.last() == attempts[0]);
    assert(run_activations(s, code, t1.drop_last()) == (s, 0int));
    lemma_at_most_once_activation(s, code, t1);
    lemma_at_most_once_activation(s, code, attempts.take(i));
    let before = run_activations(s, code, attempts.take(i));
    lemma_activation_terminal(before.0, code, attempts[i].0, attempts[i].1, attempts[i].2);
}

/// Law: expiry arithmetic. An activated well-formed card expires exactly
/// `duration_days` days after its activation instant, and verification
/// finds it valid at `now` precisely while `now` is before that instant.
pub proof fn lemma_expiry_window(c: Card, now: i64)
    requires
        c.wf(),
        c.is_activated,
    ensures
        c.expires_at->0 == c.activated_at->0 + c.duration_days as int * (SECONDS_PER_DAY as int),
        card_valid_at(c, now) <==> now < c.activated_at->0 + c.duration_days as int * (
        SECONDS_PER_DAY as int),
{
}

} // verus!
