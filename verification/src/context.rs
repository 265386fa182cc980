//! What the bot knows of the room a command came from.
use vstd::prelude::*;

verus! {

/// The room a command came from: its ID, display name, and whether it is
/// secure enough for account commands.
#[derive(Clone, Debug)]
pub struct RoomContext {
    pub id: String,
    pub display_name: String,
    pub secure: bool,
}

impl RoomContext {
    /// The context of a room. The room is secure when it is encrypted, it is
    /// a direct conversation (exactly two active members), and the sender
    /// is in it. A room without a display name gets an empty one.
    pub fn new_with_name(
        id: String,
        display_name: Option<String>,
        encrypted: bool,
        active_members: usize,
        user_in_room: bool,
    ) -> (r: RoomContext)
        ensures
            r.id@ == id@,
            r.display_name@ == match display_name {
                Some(n) => n@,
                None => Seq::<char>::empty(),
            },
            r.secure == (encrypted && active_members == 2 && user_in_room),
    {
        let display_name = match display_name {
            Some(n) => n,
            None => String::new(),
        };
        let is_direct = active_members == 2;
        RoomContext { id, display_name, secure: encrypted && is_direct && user_in_room }
    }

    /// Whether the room is secure enough for account commands.
    pub fn is_secure(&self) -> (r: bool)
        ensures
            r == self.secure,
    {
        self.secure
    }
}

}
