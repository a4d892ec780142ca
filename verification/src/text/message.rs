//! Messages to players, and who receives them.
use vstd::prelude::*;
use crate::player::Uuid;
use crate::text::strings::concat3;

verus! {

/// What follows a message: a blank line and the prompt.
pub open spec fn spec_prompt() -> Seq<char> {
    seq!['\n', '\n', ' ', '>', ' ']
}

/// A message on a line of its own, followed by the prompt.
pub open spec fn spec_padded(s: Seq<char>) -> Seq<char> {
    seq!['\n'] + s + spec_prompt()
}

/// The text of an optional string.
pub open spec fn opt_view(o: Option<String>) -> Option<Seq<char>> {
    match o {
        Some(s) => Some(s@),
        None => None,
    }
}

/// `s` on a line of its own, followed by the prompt.
pub fn pad(s: &str) -> (r: String)
    ensures
        r@ == spec_padded(s@),
{
    proof {
        reveal_strlit("\n");
        reveal_strlit("\n\n > ");
    }
    concat3("\n", s, "\n\n > ")
}

/// Text that can be framed for a player's terminal.
pub trait MessageFormat {
    spec fn format_view(&self) -> Seq<char>;

    fn un_padded(&self) -> (r: String)
        ensures
            r@ == self.format_view(),
    ;

    /// The text on a line of its own, followed by the prompt.
    fn padded(&self) -> (r: String)
        ensures
            r@ == spec_padded(self.format_view()),
    ;

    /// The text between `before` and `after`.
    fn custom_padded(&self, before: &str, after: &str) -> (r: String)
        ensures
            r@ == before@ + self.format_view() + after@,
    ;
}

impl MessageFormat for String {
    open spec fn format_view(&self) -> Seq<char> {
        self@
    }

    fn un_padded(&self) -> (r: String) {
        self.clone()
    }

    fn padded(&self) -> (r: String) {
        pad(self.as_str())
    }

    fn custom_padded(&self, before: &str, after: &str) -> (r: String) {
        concat3(before, self.as_str(), after)
    }
}

impl<'a> MessageFormat for &'a str {
    open spec fn format_view(&self) -> Seq<char> {
        (*self)@
    }

    fn un_padded(&self) -> (r: String) {
        String::from_str(*self)
    }

    fn padded(&self) -> (r: String) {
        pad(*self)
    }

    fn custom_padded(&self, before: &str, after: &str) -> (r: String) {
        concat3(before, *self, after)
    }
}

/// A message, as its sender, the one it is aimed at and the onlookers see
/// it.
pub trait Message {
    spec fn self_view(&self) -> Seq<char>;

    spec fn object_view(&self) -> Option<Seq<char>>;

    spec fn others_view(&self) -> Option<Seq<char>>;

    fn to_self(&self) -> (r: String)
        ensures
            r@ == self.self_view(),
    ;

    fn to_object(&self) -> (r: Option<String>)
        ensures
            opt_view(r) == self.object_view(),
    ;

    fn to_others(&self) -> (r: Option<String>)
        ensures
            opt_view(r) == self.others_view(),
    ;
}

/// A message for its sender and, where there is one, for the others.
pub struct Msg {
    pub s: String,
    pub o: Option<String>,
}

impl Message for Msg {
    open spec fn self_view(&self) -> Seq<char> {
        self.s@
    }

    open spec fn object_view(&self) -> Option<Seq<char>> {
        None
    }

    open spec fn others_view(&self) -> Option<Seq<char>> {
        opt_view(self.o)
    }

    fn to_self(&self) -> (r: String) {
        self.s.clone()
    }

    fn to_object(&self) -> (r: Option<String>) {
        None
    }

    fn to_others(&self) -> (r: Option<String>) {
        match &self.o {
            Some(o) => Some(o.clone()),
            None => None,
        }
    }
}

impl<'a> Message for &'a str {
    open spec fn self_view(&self) -> Seq<char> {
        (*self)@
    }

    open spec fn object_view(&self) -> Option<Seq<char>> {
        None
    }

    open spec fn others_view(&self) -> Option<Seq<char>> {
        Some((*self)@)
    }

    fn to_self(&self) -> (r: String) {
        String::from_str(*self)
    }

    fn to_object(&self) -> (r: Option<String>) {
        None
    }

    fn to_others(&self) -> (r: Option<String>) {
        Some(String::from_str(*self))
    }
}

impl Message for String {
    open spec fn self_view(&self) -> Seq<char> {
        self@
    }

    open spec fn object_view(&self) -> Option<Seq<char>> {
        None
    }

    open spec fn others_view(&self) -> Option<Seq<char>> {
        Some(self@)
    }

    fn to_self(&self) -> (r: String) {
        self.clone()
    }

    fn to_object(&self) -> (r: Option<String>) {
        None
    }

    fn to_others(&self) -> (r: Option<String>) {
        Some(self.clone())
    }
}

/// A message with a text for the sender, one for the player it is aimed
/// at, and one for the onlookers.
pub struct FightMessage {
    pub s: String,
    pub obj: Option<String>,
    pub oth: Option<String>,
}

impl Message for FightMessage {
    open spec fn self_view(&self) -> Seq<char> {
        self.s@
    }

    open spec fn object_view(&self) -> Option<Seq<char>> {
        opt_view(self.obj)
    }

    open spec fn others_view(&self) -> Option<Seq<char>> {
        opt_view(self.oth)
    }

    fn to_self(&self) -> (r: String) {
        self.s.clone()
    }

    fn to_object(&self) -> (r: Option<String>) {
        match &self.obj {
            Some(o) => Some(o.clone()),
            None => None,
        }
    }

    fn to_others(&self) -> (r: Option<String>) {
        match &self.oth {
            Some(o) => Some(o.clone()),
            None => None,
        }
    }
}

/// Who receives a message: the sender, the player it is aimed at, and
/// the onlookers.
pub trait Messenger {
    spec fn id_view(&self) -> Option<u128>;

    spec fn object_id_view(&self) -> Option<u128>;

    spec fn others_view(&self) -> Seq<u128>;

    fn id(&self) -> (r: Option<u128>)
        ensures
            r == self.id_view(),
    ;

    fn object(&self) -> (r: Option<u128>)
        ensures
            r == self.object_id_view(),
    ;

    fn others(&self) -> (r: Vec<u128>)
        ensures
            r@ == self.others_view(),
    ;
}

impl Messenger for u128 {
    open spec fn id_view(&self) -> Option<u128> {
        Some(*self)
    }

    open spec fn object_id_view(&self) -> Option<u128> {
        None
    }

    open spec fn others_view(&self) -> Seq<u128> {
        Seq::empty()
    }

    fn id(&self) -> (r: Option<u128>) {
        Some(*self)
    }

    fn object(&self) -> (r: Option<u128>) {
        None
    }

    fn others(&self) -> (r: Vec<u128>) {
        Vec::new()
    }
}

/// A sender (none where its id is 0) and onlookers.
pub struct Audience<T: Uuid, U: Uuid>(pub T, pub U);

impl<T: Uuid, U: Uuid> Messenger for Audience<T, U> {
    open spec fn id_view(&self) -> Option<u128> {
        if self.0.uuid_view() == 0 {
            None
        } else {
            Some(self.0.uuid_view())
        }
    }

    open spec fn object_id_view(&self) -> Option<u128> {
        None
    }

    open spec fn others_view(&self) -> Seq<u128> {
        self.1.others_view()
    }

    fn id(&self) -> (r: Option<u128>) {
        let u = self.0.uuid();
        if u == 0 {
            None
        } else {
            Some(u)
        }
    }

    fn object(&self) -> (r: Option<u128>) {
        None
    }

    fn others(&self) -> (r: Vec<u128>) {
        self.1.others()
    }
}

/// The two fighters and the onlookers of a fight.
pub struct FightAudience(pub u128, pub u128, pub Vec<u128>);

impl Messenger for FightAudience {
    open spec fn id_view(&self) -> Option<u128> {
        Some(self.0)
    }

    open spec fn object_id_view(&self) -> Option<u128> {
        Some(self.1)
    }

    open spec fn others_view(&self) -> Seq<u128> {
        self.2@
    }

    fn id(&self) -> (r: Option<u128>) {
        Some(self.0)
    }

    fn object(&self) -> (r: Option<u128>) {
        Some(self.1)
    }

    fn others(&self) -> (r: Vec<u128>) {
        self.2.clone()
    }
}

/// The receivers of a message, written out.
pub struct Envelope {
    pub id: Option<u128>,
    pub object: Option<u128>,
    pub others: Vec<u128>,
}

impl Messenger for Envelope {
    open spec fn id_view(&self) -> Option<u128> {
        self.id
    }

    open spec fn object_id_view(&self) -> Option<u128> {
        self.object
    }

    open spec fn others_view(&self) -> Seq<u128> {
        self.others@
    }

    fn id(&self) -> (r: Option<u128>) {
        self.id
    }

    fn object(&self) -> (r: Option<u128>) {
        self.object
    }

    fn others(&self) -> (r: Vec<u128>) {
        self.others.clone()
    }
}

/// Something that queues messages for players: each receiver that it
/// knows gets its text.
pub trait Broadcast {
    /// The texts waiting to be written, with their receivers, in order.
    spec fn queued(&self) -> Seq<(u128, Seq<char>)>;

    /// The texts that a message adds to the queue: the sender's, the one
    /// for the player it is aimed at, and the one for each onlooker.
    spec fn deliveries_for(
        &self,
        id: u128,
        object: u128,
        others: Seq<u128>,
        self_text: Seq<char>,
        obj_text: Option<Seq<char>>,
        oth_text: Option<Seq<char>>,
    ) -> Seq<(u128, Seq<char>)>;

    /// Queues the texts of a message for its receivers; an audience
    /// without a sender or an aimed-at player names player 0 in its place.
    fn send<A: Messenger, M: Message>(&mut self, audience: &A, message: &M)
        ensures
            final(self).queued() == old(self).queued() + old(self).deliveries_for(
                match audience.id_view() { Some(i) => i, None => 0 },
                match audience.object_id_view() { Some(i) => i, None => 0 },
                audience.others_view(),
                message.self_view(),
                message.object_view(),
                message.others_view(),
            ),
    ;
}

} // verus!
