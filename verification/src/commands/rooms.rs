//! The commands that list the user's rooms and choose the active room.
use crate::commands::{Execution, ExecutionError};
use crate::error::BotError;
use crate::text::push_str;
use vstd::prelude::*;

verus! {

/// A room's ID and display name, for searching.
#[derive(Clone, Debug, Eq, PartialEq)]
pub struct RoomNameAndId {
    pub id: String,
    pub name: String,
}

/// List the rooms the user is in.
pub struct ListRoomsCommand;

/// Set the user's active room.
pub struct SetRoomCommand(pub String);

/// The lines of a room list, each `  <id>  |  <name>`, joined by line
/// breaks.
pub open spec fn room_lines(rooms: Seq<RoomNameAndId>) -> Seq<char>
    decreases rooms.len(),
{
    if rooms.len() == 0 {
        Seq::empty()
    } else {
        let line = "  "@ + rooms.last().id@ + "  |  "@ + rooms.last().name@;
        if rooms.len() == 1 {
            line
        } else {
            room_lines(rooms.drop_last()) + "\n"@ + line
        }
    }
}

impl ListRoomsCommand {
    /// The command for the text after `!rooms`; the text is ignored.
    pub fn from_input(_input: &str) -> (r: Result<ListRoomsCommand, BotError>)
        ensures
            r is Ok,
    {
        Ok(ListRoomsCommand)
    }

    /// The list of the user's rooms, preformatted.
    pub fn response(rooms: &[RoomNameAndId]) -> (r: Result<Execution, ExecutionError>)
        ensures
            r matches Ok(e) && e.html_view() == "<pre>"@ + room_lines(rooms@) + "</pre>"@,
    {
        let mut html = String::new();
        push_str(&mut html, "<pre>");
        let ghost start = html@;
        let mut i: usize = 0;
        while i < rooms.len()
            invariant
                i <= rooms@.len(),
                html@ == start + room_lines(rooms@.take(i as int)),
            decreases rooms@.len() - i,
        {
            if i > 0 {
                push_str(&mut html, "\n");
            }
            push_str(&mut html, "  ");
            push_str(&mut html, rooms[i].id.as_str());
            push_str(&mut html, "  |  ");
            push_str(&mut html, rooms[i].name.as_str());
            proof {
                let t = rooms@.take(i + 1);
                assert(t.drop_last() =~= rooms@.take(i as int));
                assert(t.last() == rooms@[i as int]);
                assert(html@ =~= start + room_lines(t));
            }
            i = i + 1;
        }
        proof {
            assert(rooms@.take(i as int) =~= rooms@);
        }
        push_str(&mut html, "</pre>");
        Execution::success(html)
    }
}

/// Attempt to find a room by either name or Matrix Room ID query string. It
/// prefers the exact room ID first, and then falls back to the best match of
/// a fuzzy search of the room names, `fuzzy_best`. The index of the room
/// found is returned, or None if there is no match.
pub fn search_for_room(rooms: &[RoomNameAndId], query: &str, fuzzy_best: Option<usize>) -> (r: Option<usize>)
    ensures
        (exists|i: int| 0 <= i < rooms@.len() && rooms@[i].id@ == query@) ==> (r matches Some(k)
            && k < rooms@.len() && rooms@[k as int].id@ == query@ && forall|j: int|
            0 <= j < k ==> rooms@[j].id@ != query@),
        !(exists|i: int| 0 <= i < rooms@.len() && rooms@[i].id@ == query@) ==> r == (match fuzzy_best {
            Some(k) => if k < rooms@.len() {
                Some(k)
            } else {
                None
            },
            None => None,
        }),
{
    let q = query.to_owned();
    let mut i: usize = 0;
    while i < rooms.len()
        invariant
            i <= rooms@.len(),
            q@ == query@,
            forall|j: int| 0 <= j < i ==> rooms@[j].id@ != query@,
        decreases rooms@.len() - i,
    {
        if rooms[i].id == q {
            return Some(i);
        }
        i = i + 1;
    }
    match fuzzy_best {
        Some(k) => if k < rooms.len() {
            Some(k)
        } else {
            None
        },
        None => None,
    }
}

impl SetRoomCommand {
    /// The command for the text after `!room`: the room's ID or name.
    pub fn from_input(input: &str) -> (r: Result<SetRoomCommand, BotError>)
        ensures
            r matches Ok(cmd) && cmd.0@ == input@,
    {
        Ok(SetRoomCommand(input.to_owned()))
    }

    /// The response to choosing a room: the room found, or an error when
    /// none was.
    pub fn response(room: Option<&RoomNameAndId>) -> (r: Result<Execution, ExecutionError>)
        ensures
            match room {
                Some(room) => r matches Ok(e) && e.html_view() == "Active room set to \""@ + room.name@
                    + "\""@,
                None => r matches Err(ExecutionError(BotError::RoomDoesNotExist)),
            },
    {
        match room {
            Some(room) => {
                let mut html = String::new();
                push_str(&mut html, "Active room set to \"");
                push_str(&mut html, room.name.as_str());
                push_str(&mut html, "\"");
                Execution::success(html)
            },
            None => Err(ExecutionError(BotError::RoomDoesNotExist)),
        }
    }
}

}
