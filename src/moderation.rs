use vstd::prelude::*;
use crate::forum::{
    Forum,
    ForumError,
    ForumView,
    REPLY_DELETED,
    REPLY_HIDDEN,
    with_body,
    with_name,
    with_status,
};
use crate::text::same_text;

verus! {

/// The status a moderation `action` sets, or why it is refused: `delete` is
/// open to the reply's poster and to moderators, `hide` to moderators alone,
/// and any other action is a bad request.
pub open spec fn moderation_result(action: Seq<char>, is_owner: bool, is_moderator: bool) -> Result<
    i32,
    ForumError,
> {
    if action == "delete"@ {
        if is_owner || is_moderator {
            Ok(REPLY_DELETED)
        } else {
            Err(ForumError::Unauthorized)
        }
    } else if action == "hide"@ {
        if is_moderator {
            Ok(REPLY_HIDDEN)
        } else {
            Err(ForumError::Unauthorized)
        }
    } else {
        Err(ForumError::BadRequest)
    }
}

/// Decides a moderation request from the action and the caller's standing.
pub fn moderation_outcome(action: &str, is_owner: bool, is_moderator: bool) -> (r: Result<
    i32,
    ForumError,
>)
    ensures
        r == moderation_result(action@, is_owner, is_moderator),
{
    if same_text(action, "delete") {
        if is_owner || is_moderator {
            Ok(REPLY_DELETED)
        } else {
            Err(ForumError::Unauthorized)
        }
    } else if same_text(action, "hide") {
        if is_moderator {
            Ok(REPLY_HIDDEN)
        } else {
            Err(ForumError::Unauthorized)
        }
    } else {
        Err(ForumError::BadRequest)
    }
}

/// Deletes or hides reply `reply_id` on behalf of user `requester`. Only the
/// status changes (and the update stamp); a refused request changes nothing.
pub fn delete_reply(
    forum: &mut Forum,
    requester: i32,
    reply_id: i32,
    action: &str,
    now: i64,
) -> (r: Result<(), ForumError>)
    requires
        old(forum)@.wf(),
    ensures
        final(forum)@.wf(),
        !old(forum)@.has_user(requester) || !old(forum)@.has_reply(reply_id) ==> r == Err::<
            (),
            ForumError,
        >(ForumError::NotFound) && final(forum)@ == old(forum)@,
        old(forum)@.has_user(requester) && old(forum)@.has_reply(reply_id) ==> match moderation_result(
            action@,
            old(forum)@.reply(reply_id).poster == requester,
            old(forum)@.user(requester).is_moderator,
        ) {
            Ok(status) => {
                &&& r is Ok
                &&& final(forum)@.replies == old(forum)@.replies.update(
                    reply_id - 1,
                    with_status(old(forum)@.reply(reply_id), status, now),
                )
                &&& final(forum)@.boards == old(forum)@.boards
                &&& final(forum)@.threads == old(forum)@.threads
                &&& final(forum)@.users == old(forum)@.users
            },
            Err(e) => r == Err::<(), ForumError>(e) && final(forum)@ == old(forum)@,
        },
        old(forum)@.has_user(requester) && old(forum)@.has_reply(reply_id) && !old(
            forum,
        )@.user(requester).is_moderator && old(forum)@.reply(reply_id).poster != requester && (
        action@ == "hide"@ || action@ == "delete"@) ==> r == Err::<(), ForumError>(
            ForumError::Unauthorized,
        ) && final(forum)@ == old(forum)@,
{
    let is_moderator = match forum.user_by_id(requester) {
        Some(u) => u.is_moderator,
        None => {
            return Err(ForumError::NotFound);
        },
    };
    let is_owner = match forum.reply_by_id(reply_id) {
        Some(x) => x.poster == requester,
        None => {
            return Err(ForumError::NotFound);
        },
    };
    let status = moderation_outcome(action, is_owner, is_moderator)?;
    forum.set_reply_status(reply_id, status, now);
    Ok(())
}

/// Replaces the body of reply `reply_id`; only its poster may.
pub fn update_reply(forum: &mut Forum, requester: i32, reply_id: i32, body: String, now: i64) -> (r:
    Result<(), ForumError>)
    requires
        old(forum)@.wf(),
    ensures
        final(forum)@.wf(),
        r is Ok <==> old(forum)@.has_user(requester) && old(forum)@.has_reply(reply_id) && old(
            forum,
        )@.reply(reply_id).poster == requester,
        r is Err ==> final(forum)@ == old(forum)@,
        !old(forum)@.has_user(requester) || !old(forum)@.has_reply(reply_id) ==> r == Err::<
            (),
            ForumError,
        >(ForumError::NotFound),
        old(forum)@.has_user(requester) && old(forum)@.has_reply(reply_id) && old(forum)@.reply(
            reply_id,
        ).poster != requester ==> r == Err::<(), ForumError>(ForumError::Unauthorized),
        r is Ok ==> {
            &&& final(forum)@.replies == old(forum)@.replies.update(
                reply_id - 1,
                with_body(old(forum)@.reply(reply_id), body, now),
            )
            &&& final(forum)@.boards == old(forum)@.boards
            &&& final(forum)@.threads == old(forum)@.threads
            &&& final(forum)@.users == old(forum)@.users
        },
{
    if forum.user_by_id(requester).is_none() {
        return Err(ForumError::NotFound);
    }
    let owner = match forum.reply_by_id(reply_id) {
        Some(x) => x.poster,
        None => {
            return Err(ForumError::NotFound);
        },
    };
    if owner != requester {
        return Err(ForumError::Unauthorized);
    }
    forum.set_reply_body(reply_id, body, now);
    Ok(())
}

/// Renames user `user_id`; users may rename only themselves.
pub fn update_user(forum: &mut Forum, requester: i32, user_id: i32, name: String) -> (r: Result<
    (),
    ForumError,
>)
    requires
        old(forum)@.wf(),
    ensures
        final(forum)@.wf(),
        r is Ok <==> old(forum)@.has_user(requester) && requester == user_id,
        r is Err ==> final(forum)@ == old(forum)@,
        !old(forum)@.has_user(requester) ==> r == Err::<(), ForumError>(ForumError::NotFound),
        old(forum)@.has_user(requester) && requester != user_id ==> r == Err::<(), ForumError>(
            ForumError::Unauthorized,
        ),
        r is Ok ==> {
            &&& final(forum)@.users == old(forum)@.users.update(
                user_id - 1,
                with_name(old(forum)@.user(user_id), name),
            )
            &&& final(forum)@.boards == old(forum)@.boards
            &&& final(forum)@.threads == old(forum)@.threads
            &&& final(forum)@.replies == old(forum)@.replies
        },
{
    if forum.user_by_id(requester).is_none() {
        return Err(ForumError::NotFound);
    }
    if requester != user_id {
        return Err(ForumError::Unauthorized);
    }
    forum.set_user_name(user_id, name);
    Ok(())
}

/// The id of the user whose public identifier is `pid`, if any.
pub fn find_by_pid(forum: &Forum, pid: &str) -> (r: Option<i32>)
    requires
        forum@.wf(),
    ensures
        r matches Some(id) ==> forum@.has_user(id) && forum@.user(id).pid@ == pid@,
        r is None ==> forall|i: int| 0 <= i < forum@.users.len() ==> #[trigger] forum@.users[i].pid@
            != pid@,
{
    let n = forum.num_users();
    let mut i: usize = 0;
    while i < n
        invariant
            forum@.wf(),
            n == forum@.users.len(),
            i <= n,
            forall|k: int| 0 <= k < i ==> #[trigger] forum@.users[k].pid@ != pid@,
        decreases n - i,
    {
        let u = forum.user_at(i);
        if same_text(u.pid.as_str(), pid) {
            return Some(u.id);
        }
        i += 1;
    }
    None
}

} // verus!
