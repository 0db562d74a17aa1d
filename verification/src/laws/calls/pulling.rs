//! Calls of a pull.

use crate::laws::calls::changes::words_of;
use crate::laws::done;
use crate::laws::pulling::{
    are_applied_in_order, are_applied_up_to_a_refusal, checkpoint_is_asked_for, checkpoint_is_set,
    every_change_is_applied_in_order, failed_pull_says_where, is_checkpoint_held,
    page_is_asked_for, page_moves_the_pull, pull_starts_at_the_checkpoint,
    refused_change_ends_the_page, summary_counts_the_pull,
};
use crate::request::settled;
use crate::sql::SqlValueView;
use crate::store::Store;
use crate::sync::http::{authorization, endpoint_url, is_success, pair, Failure, Request};
use crate::sync::pull::{
    apply_pull_changes, changes_applied, checkpoint_key, checkpoint_read, get_checkpoint,
    pull_failure, pull_request_for, update_checkpoint, update_checkpoint_command, PullChange,
    PullResponse, PullSession, PullSummary,
};
use crate::text::without_end_slashes;
use vstd::prelude::*;

verus! {

/// `apply_pull_changes` applies each change by one command, in their order, up to
/// the first that is refused, and counts what was written and marked.
pub proof fn apply_pull_changes_comes_to(
    store: &mut Store,
    table: &str,
    changes: &[PullChange],
    r: Result<(usize, usize), String>,
)
    requires
        call_ensures(apply_pull_changes, (store, table, changes), r),
    ensures
        final(store).conn() == old(store).conn(),
        match r {
            Ok(counts) => are_applied_in_order(
                table@,
                changes@,
                old(store).log(),
                final(store).log(),
                counts,
            ),
            Err(e) => are_applied_up_to_a_refusal(
                table@,
                changes@,
                old(store).log(),
                final(store).log(),
                e@,
            ),
        },
{
    match r {
        Ok(counts) => {
            every_change_is_applied_in_order(
                table@,
                changes@,
                old(store).log(),
                final(store).log(),
                counts,
            );
        },
        Err(e) => {
            refused_change_ends_the_page(
                table@,
                changes@,
                old(store).log(),
                final(store).log(),
                e@,
            );
        },
    }
}

/// `get_checkpoint` is what the database holds for the table, mode and filter.
pub proof fn get_checkpoint_comes_to(
    store: &mut Store,
    table: &str,
    sync_mode: &str,
    filter_key: &str,
    r: Result<Option<String>, String>,
)
    requires
        call_ensures(get_checkpoint, (store, table, sync_mode, filter_key), r),
    ensures
        final(store).conn() == old(store).conn(),
        is_checkpoint_held(
            table@,
            sync_mode@,
            filter_key@,
            old(store).log(),
            final(store).log(),
            r,
        ),
{
    checkpoint_is_asked_for(
        table@,
        sync_mode@,
        filter_key@,
        old(store).log(),
        final(store).log(),
        r,
    );
}

/// `update_checkpoint` sets the checkpoint of the table, mode and filter.
pub proof fn update_checkpoint_comes_to(
    store: &mut Store,
    table: &str,
    sync_mode: &str,
    filter_key: &str,
    last_sync_at: &str,
    r: Result<(), String>,
)
    requires
        call_ensures(update_checkpoint, (store, table, sync_mode, filter_key, last_sync_at), r),
    ensures
        final(store).conn() == old(store).conn(),
        done(
            old(store).log(),
            final(store).log(),
            "INSERT OR REPLACE INTO _sync_checkpoint (table_name, sync_mode, filter_key, last_sync_at)
         VALUES (?1, ?2, ?3, ?4)"@,
            seq![
                SqlValueView::Text(table@),
                SqlValueView::Text(sync_mode@),
                SqlValueView::Text(filter_key@),
                SqlValueView::Text(last_sync_at@),
            ],
            "Failed to update checkpoint: "@,
            words_of(r),
        ),
{
    checkpoint_is_set(
        table@,
        sync_mode@,
        filter_key@,
        last_sync_at@,
        old(store).log(),
        final(store).log(),
        words_of(r),
    );
}

/// The request for a page of changes.
pub open spec fn asks_for_page(
    request: Request,
    base_url: Seq<char>,
    token: Seq<char>,
    table: Seq<char>,
    since: Seq<char>,
    mode: Seq<char>,
    filter_key: Seq<char>,
) -> bool {
    &&& request.url@ == without_end_slashes(base_url) + "/offlite/sync/"@ + table + "/pull"@
    &&& request.query@.len() == 3
    &&& is_pair(request.query@[0], "since"@, since)
    &&& is_pair(request.query@[1], "mode"@, mode)
    &&& is_pair(request.query@[2], "filter_key"@, filter_key)
    &&& request.headers@.len() == 2
    &&& is_pair(request.headers@[0], "Accept"@, "application/sjs"@)
    &&& is_pair(request.headers@[1], "Authorization"@, "Bearer "@ + token)
}

/// The pair has this name and this value.
pub open spec fn is_pair(pair: (String, String), name: Seq<char>, value: Seq<char>) -> bool {
    pair.0@ == name && pair.1@ == value
}

proof fn page_request_is_whole(
    request: Request,
    base_url: Seq<char>,
    token: Seq<char>,
    table: Seq<char>,
    since: Seq<char>,
    mode: Seq<char>,
    filter_key: Seq<char>,
)
    requires
        request@ == crate::sync::pull::pull_request(
            base_url,
            token,
            table,
            since,
            mode,
            filter_key,
        ),
    ensures
        asks_for_page(request, base_url, token, table, since, mode, filter_key),
{
    page_is_asked_for(base_url, token, table, since, mode, filter_key);
    let query = crate::sync::http::pairs(request.query@);
    let headers = crate::sync::http::pairs(request.headers@);
    assert(request@.query == query && request@.headers == headers);
    assert(query.len() == request.query@.len() && headers.len() == request.headers@.len());
    assert(query[0] == ("since"@, since));
    assert(query[1] == ("mode"@, mode));
    assert(query[2] == ("filter_key"@, filter_key));
    assert(headers[0] == ("Accept"@, "application/sjs"@));
    assert(headers[1] == ("Authorization"@, "Bearer "@ + token));
}

/// `pull_request_for` asks for a page of the table.
pub proof fn pull_request_for_comes_to(
    base_url: &str,
    token: &str,
    table: &str,
    since: &str,
    mode: &str,
    filter_key: &str,
    r: Request,
)
    requires
        call_ensures(pull_request_for, (base_url, token, table, since, mode, filter_key), r),
    ensures
        asks_for_page(r, base_url@, token@, table@, since@, mode@, filter_key@),
{
    page_request_is_whole(r, base_url@, token@, table@, since@, mode@, filter_key@);
}

/// `pull_failure` says where a pull failed.
pub proof fn pull_failure_comes_to(failure: &Failure, r: String)
    requires
        call_ensures(pull_failure, (failure,), r),
    ensures
        r@ == match *failure {
            Failure::Send(e) => "Pull request failed: "@ + e@,
            Failure::Status(status) => "Pull endpoint returned status "@ + status@,
            Failure::Body(e) => "Failed to read pull response body: "@ + e@,
            Failure::Decode(e) => "Failed to decode pull response MessagePack: "@ + e@,
        },
{
    failed_pull_says_where(*failure);
}

/// `endpoint_url` is the address of a table's endpoint; slashes at the end of the
/// base address do not matter.
pub proof fn endpoint_url_comes_to(base_url: &str, table: &str, end: &str, r: String)
    requires
        call_ensures(endpoint_url, (base_url, table, end), r),
    ensures
        r@ == without_end_slashes(base_url@) + "/offlite/sync/"@ + table@ + end@,
{
}

/// `authorization` carries the token.
pub proof fn authorization_comes_to(token: &str, r: (String, String))
    requires
        call_ensures(authorization, (token,), r),
    ensures
        is_pair(r, "Authorization"@, "Bearer "@ + token@),
{
}

/// `pair` keeps both texts.
pub proof fn pair_comes_to(name: &str, value: &str, r: (String, String))
    requires
        call_ensures(pair, (name, value), r),
    ensures
        is_pair(r, name@, value@),
{
}

/// `is_success` holds of the two hundreds.
pub proof fn is_success_comes_to(status: u16, r: bool)
    requires
        call_ensures(is_success, (status,), r),
    ensures
        r <==> status as int / 100 == 2,
{
}

/// `PullSession::start` begins at the checkpoint of the table, mode and filter,
/// or from the beginning, with nothing counted.
pub proof fn pull_start_comes_to(
    store: &mut Store,
    table: &str,
    sync_mode: &str,
    filter_key: &str,
    r: Result<PullSession, String>,
)
    requires
        call_ensures(PullSession::start, (store, table, sync_mode, filter_key), r),
    ensures
        final(store).conn() == old(store).conn(),
        exists|checkpoint: Result<Option<String>, String>|
            #[trigger] is_checkpoint_held(
                table@,
                sync_mode@,
                filter_key@,
                old(store).log(),
                final(store).log(),
                checkpoint,
            ) && (checkpoint matches Err(e) ==> r is Err && r->Err_0 == e) && (checkpoint matches Ok(
                time,
            ) ==> r is Ok && {
                let session = r->Ok_0@;
                &&& session.table_name == table@
                &&& session.sync_mode == sync_mode@
                &&& session.filter_key == filter_key@
                &&& time matches Some(text) ==> session.since == text@
                &&& time is None ==> session.since.len() == 0
                &&& session.applied == 0 && session.deleted == 0 && session.pages == 0
            }),
{
    let checkpoint = choose|checkpoint: Result<Option<String>, String>| #[trigger]
        checkpoint_read(
            checkpoint_key(table@, sync_mode@, filter_key@),
            old(store).log(),
            final(store).log(),
            checkpoint,
        ) && match checkpoint {
            Ok(time) => r is Ok && r->Ok_0@ == crate::sync::pull::pull_from(
                table@,
                sync_mode@,
                filter_key@,
                time,
            ),
            Err(e) => r is Err && r->Err_0 == e,
        };
    checkpoint_is_asked_for(
        table@,
        sync_mode@,
        filter_key@,
        old(store).log(),
        final(store).log(),
        checkpoint,
    );
    if let Ok(time) = checkpoint {
        pull_starts_at_the_checkpoint(table@, sync_mode@, filter_key@, time);
    }
    assert(is_checkpoint_held(
        table@,
        sync_mode@,
        filter_key@,
        old(store).log(),
        final(store).log(),
        checkpoint,
    ));
}

/// `PullSession::next_request` asks for the page behind where the pull stands.
pub proof fn next_request_comes_to(
    session: &PullSession,
    base_url: &str,
    token: &str,
    r: Request,
)
    requires
        call_ensures(PullSession::next_request, (session, base_url, token), r),
    ensures
        asks_for_page(
            r,
            base_url@,
            token@,
            session@.table_name,
            session@.since,
            session@.sync_mode,
            session@.filter_key,
        ),
{
    page_request_is_whole(
        r,
        base_url@,
        token@,
        session@.table_name,
        session@.since,
        session@.sync_mode,
        session@.filter_key,
    );
}

/// `PullSession::has_room` says whether the counts still fit after a page.
pub proof fn has_room_comes_to(session: &PullSession, page: &PullResponse, r: bool)
    requires
        call_ensures(PullSession::has_room, (session, page), r),
    ensures
        r <==> session@.pages + 1 <= usize::MAX && session@.applied + session@.deleted
            + page.changes@.len() <= usize::MAX,
{
}

/// `PullSession::take_page` applies the page to the table of the pull, moves the
/// pull to the server's time, adds to its counts, and says whether there is more.
/// Where a change is refused, the pull stays where it was.
pub proof fn take_page_comes_to(
    session: &mut PullSession,
    store: &mut Store,
    page: PullResponse,
    r: Result<bool, String>,
)
    requires
        call_ensures(PullSession::take_page, (session, store, page), r),
    ensures
        final(store).conn() == old(store).conn(),
        match r {
            Ok(more) => {
                &&& more == page.has_more
                &&& final(session)@.table_name == old(session)@.table_name
                &&& final(session)@.sync_mode == old(session)@.sync_mode
                &&& final(session)@.filter_key == old(session)@.filter_key
                &&& final(session)@.since == page.server_time@
                &&& final(session)@.pages == old(session)@.pages + 1
                &&& exists|counts: (usize, usize)|
                    #[trigger] are_applied_in_order(
                        old(session)@.table_name,
                        page.changes@,
                        old(store).log(),
                        final(store).log(),
                        counts,
                    ) && final(session)@.applied == old(session)@.applied + counts.0 && final(
                        session
                    )@.deleted == old(session)@.deleted + counts.1
            },
            Err(e) => {
                &&& final(session)@ == old(session)@
                &&& are_applied_up_to_a_refusal(
                    old(session)@.table_name,
                    page.changes@,
                    old(store).log(),
                    final(store).log(),
                    e@,
                )
            },
        },
{
    let table = old(session)@.table_name;
    let counts = choose|counts: Result<(usize, usize), Seq<char>>| #[trigger]
        changes_applied(table, page.changes@, old(store).log(), final(store).log(), counts)
            && match counts {
            Ok(counts) => r == Ok::<bool, String>(page.has_more) && final(session)@ == old(
                session
            )@.after_page(page, counts),
            Err(e) => r is Err && r->Err_0@ == e && final(session)@ == old(session)@,
        };
    match counts {
        Ok(counts) => {
            every_change_is_applied_in_order(
                table,
                page.changes@,
                old(store).log(),
                final(store).log(),
                counts,
            );
            page_moves_the_pull(old(session)@, page, counts);
        },
        Err(e) => {
            refused_change_ends_the_page(
                table,
                page.changes@,
                old(store).log(),
                final(store).log(),
                e,
            );
        },
    }
}

/// `PullSession::finish` sets the checkpoint to where the pull stands, unless the
/// server never told its time, and returns the counts.
pub proof fn pull_finish_comes_to(
    session: PullSession,
    store: &mut Store,
    r: Result<PullSummary, String>,
)
    requires
        call_ensures(PullSession::finish, (session, store), r),
    ensures
        final(store).conn() == old(store).conn(),
        r matches Ok(summary) ==> summary.applied == session@.applied && summary.deleted
            == session@.deleted && summary.pages == session@.pages && summary.pulled
            == session@.applied + session@.deleted,
        if session@.since.len() == 0 {
            r is Ok && final(store).log() == old(store).log()
        } else {
            done(
                old(store).log(),
                final(store).log(),
                "INSERT OR REPLACE INTO _sync_checkpoint (table_name, sync_mode, filter_key, last_sync_at)
         VALUES (?1, ?2, ?3, ?4)"@,
                seq![
                    SqlValueView::Text(session@.table_name),
                    SqlValueView::Text(session@.sync_mode),
                    SqlValueView::Text(session@.filter_key),
                    SqlValueView::Text(session@.since),
                ],
                "Failed to update checkpoint: "@,
                match r {
                    Ok(_) => Ok(()),
                    Err(e) => Err(e@),
                },
            )
        },
{
    if session@.since.len() > 0 {
        let command = update_checkpoint_command(
            session@.table_name,
            session@.sync_mode,
            session@.filter_key,
            session@.since,
        );
        let outcome = choose|outcome: Result<(), Seq<char>>| #[trigger]
            settled(old(store).log(), final(store).log(), command, outcome) && match outcome {
                Ok(_) => r is Ok && crate::sync::pull::summary_of(session@, r->Ok_0),
                Err(e) => r is Err && r->Err_0@ == e,
            };
        checkpoint_is_set(
            session@.table_name,
            session@.sync_mode,
            session@.filter_key,
            session@.since,
            old(store).log(),
            final(store).log(),
            outcome,
        );
    }
    if let Ok(summary) = r {
        summary_counts_the_pull(session@, summary);
    }
}

} // verus!
