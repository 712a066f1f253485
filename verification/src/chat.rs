//! Chat messages: which thread they belong to, and how reactions change them.
use vstd::prelude::*;
use vstd::string::*;
use crate::database::Database;

verus! {

/// The user who made a reaction.
#[derive(Debug, Clone)]
pub struct ChatReactionUser {
    pub id: String,
    pub name: Option<String>,
    pub username: String,
    pub host: Option<String>,
    pub avatar_url: Option<String>,
}

#[verifier::ext_equal]
pub struct ChatReactionUserView {
    pub id: Seq<char>,
    pub name: Option<Seq<char>>,
    pub username: Seq<char>,
    pub host: Option<Seq<char>>,
    pub avatar_url: Option<Seq<char>>,
}

impl View for ChatReactionUser {
    type V = ChatReactionUserView;

    open spec fn view(&self) -> ChatReactionUserView {
        ChatReactionUserView {
            id: self.id@,
            name: self.name.deep_view(),
            username: self.username@,
            host: self.host.deep_view(),
            avatar_url: self.avatar_url.deep_view(),
        }
    }
}

impl DeepView for ChatReactionUser {
    type V = ChatReactionUserView;

    open spec fn deep_view(&self) -> ChatReactionUserView {
        self.view()
    }
}

/// A reaction to a chat message.
#[derive(Debug, Clone)]
pub struct ChatMessageReaction {
    pub user: Option<ChatReactionUser>,
    pub reaction: String,
}

#[verifier::ext_equal]
pub struct ChatMessageReactionView {
    pub user: Option<ChatReactionUserView>,
    pub reaction: Seq<char>,
}

impl View for ChatMessageReaction {
    type V = ChatMessageReactionView;

    open spec fn view(&self) -> ChatMessageReactionView {
        ChatMessageReactionView {
            user: self.user.deep_view(),
            reaction: self.reaction@,
        }
    }
}

impl DeepView for ChatMessageReaction {
    type V = ChatMessageReactionView;

    open spec fn deep_view(&self) -> ChatMessageReactionView {
        self.view()
    }
}

/// A chat message: to a user or to a room.
#[derive(Debug, Clone)]
pub struct ChatMessage {
    pub id: String,
    /// ISO 8601, so that texts compare as times do.
    pub created_at: String,
    pub from_user_id: String,
    /// As JSON; this library only carries it.
    pub from_user: Option<String>,
    pub to_user_id: Option<String>,
    /// As JSON; this library only carries it.
    pub to_user: Option<String>,
    pub to_room_id: Option<String>,
    /// As JSON; this library only carries it.
    pub to_room: Option<String>,
    pub text: Option<String>,
    pub file_id: Option<String>,
    /// As JSON; this library only carries it.
    pub file: Option<String>,
    pub is_read: Option<bool>,
    /// In the order in which they were made.
    pub reactions: Vec<ChatMessageReaction>,
}

#[verifier::ext_equal]
pub struct ChatMessageView {
    pub id: Seq<char>,
    pub created_at: Seq<char>,
    pub from_user_id: Seq<char>,
    pub from_user: Option<Seq<char>>,
    pub to_user_id: Option<Seq<char>>,
    pub to_user: Option<Seq<char>>,
    pub to_room_id: Option<Seq<char>>,
    pub to_room: Option<Seq<char>>,
    pub text: Option<Seq<char>>,
    pub file_id: Option<Seq<char>>,
    pub file: Option<Seq<char>>,
    pub is_read: Option<bool>,
    pub reactions: Seq<ChatMessageReactionView>,
}

impl View for ChatMessage {
    type V = ChatMessageView;

    open spec fn view(&self) -> ChatMessageView {
        ChatMessageView {
            id: self.id@,
            created_at: self.created_at@,
            from_user_id: self.from_user_id@,
            from_user: self.from_user.deep_view(),
            to_user_id: self.to_user_id.deep_view(),
            to_user: self.to_user.deep_view(),
            to_room_id: self.to_room_id.deep_view(),
            to_room: self.to_room.deep_view(),
            text: self.text.deep_view(),
            file_id: self.file_id.deep_view(),
            file: self.file.deep_view(),
            is_read: self.is_read,
            reactions: self.reactions.deep_view(),
        }
    }
}

impl DeepView for ChatMessage {
    type V = ChatMessageView;

    open spec fn deep_view(&self) -> ChatMessageView {
        self.view()
    }
}

/// A chat message with its JSON.
#[derive(Debug, Clone)]
pub struct ChatRecord {
    pub message: ChatMessage,
    /// The whole message as JSON; none where it cannot be written as JSON.
    pub json: Option<String>,
}

#[verifier::ext_equal]
pub struct ChatRecordView {
    pub message: ChatMessageView,
    pub json: Option<Seq<char>>,
}

impl View for ChatRecord {
    type V = ChatRecordView;

    open spec fn view(&self) -> ChatRecordView {
        ChatRecordView { message: self.message@, json: self.json.deep_view() }
    }
}

impl DeepView for ChatRecord {
    type V = ChatRecordView;

    open spec fn deep_view(&self) -> ChatRecordView {
        self.view()
    }
}

/// The user at the other end of a direct message to `to`, as the user
/// `account_user_id` sees it.
pub open spec fn partner(
    m: ChatMessageView,
    to: Seq<char>,
    account_user_id: Seq<char>,
) -> Seq<char> {
    if m.from_user_id == account_user_id {
        to
    } else {
        m.from_user_id
    }
}

/// The thread of a message and the thread's kind, as the user
/// `account_user_id` sees them: the room that the message went to, or else the
/// partner of a direct message. A message to nobody has none.
pub open spec fn thread_key(m: ChatMessageView, account_user_id: Seq<char>) -> Option<
    (Seq<char>, Seq<char>),
> {
    match (m.to_room_id, m.to_user_id) {
        (Some(room), _) => Some(("r:"@ + room, "room"@)),
        (None, Some(to)) => Some(("u:"@ + partner(m, to, account_user_id), "dm"@)),
        (None, None) => None,
    }
}

impl Database {
    /// The thread of a message and the thread's kind, as the user
    /// `account_user_id` sees them. A message to nobody has none.
    pub fn derive_thread_key(msg: &ChatMessage, account_user_id: &str) -> (r: Option<
        (String, &'static str),
    >)
        ensures
            r.deep_view() == thread_key(msg@, account_user_id@),
    {
        if let Some(room_id) = &msg.to_room_id {
            let mut thread: String = "r:".to_owned();
            thread.append(room_id.as_str());
            return Some((thread, "room"));
        }
        if let Some(to_user_id) = &msg.to_user_id {
            let mut thread: String = "u:".to_owned();
            if msg.from_user_id == account_user_id.to_owned() {
                thread.append(to_user_id.as_str());
            } else {
                thread.append(msg.from_user_id.as_str());
            }
            return Some((thread, "dm"));
        }
        None
    }
}

/// Whether `r` is the reaction `reaction` of the user `user_id`.
pub open spec fn is_reaction_of(
    r: ChatMessageReactionView,
    user_id: Seq<char>,
    reaction: Seq<char>,
) -> bool {
    &&& r.reaction == reaction
    &&& r.user matches Some(u) && u.id == user_id
}

/// Where the first reaction `reaction` of the user `user_id` stands; behind the
/// last one where there is none.
pub open spec fn first_reaction(
    reactions: Seq<ChatMessageReactionView>,
    user_id: Seq<char>,
    reaction: Seq<char>,
) -> int
    decreases reactions.len(),
{
    if reactions.len() == 0 || is_reaction_of(reactions[0], user_id, reaction) {
        0
    } else {
        1 + first_reaction(reactions.drop_first(), user_id, reaction)
    }
}

/// `m` with a reaction added, or with the first such reaction of the user
/// taken away; nothing where there is none to take away.
pub open spec fn reacted(
    m: ChatMessageView,
    reactor: ChatReactionUserView,
    reaction: Seq<char>,
    is_react: bool,
) -> Option<ChatMessageView> {
    if is_react {
        Some(
            ChatMessageView {
                reactions: m.reactions.push(
                    ChatMessageReactionView { user: Some(reactor), reaction },
                ),
                ..m
            },
        )
    } else {
        let at = first_reaction(m.reactions, reactor.id, reaction);
        if at < m.reactions.len() {
            Some(ChatMessageView { reactions: m.reactions.remove(at), ..m })
        } else {
            None
        }
    }
}

/// The first reaction is where the first match is.
pub(crate) proof fn lemma_first_reaction(
    reactions: Seq<ChatMessageReactionView>,
    user_id: Seq<char>,
    reaction: Seq<char>,
)
    ensures
        ({
            let at = first_reaction(reactions, user_id, reaction);
            &&& 0 <= at <= reactions.len()
            &&& at < reactions.len() ==> is_reaction_of(reactions[at], user_id, reaction)
            &&& forall|k: int|
                0 <= k < at ==> !is_reaction_of(#[trigger] reactions[k], user_id, reaction)
        }),
    decreases reactions.len(),
{
    if reactions.len() > 0 && !is_reaction_of(reactions[0], user_id, reaction) {
        let rest = reactions.drop_first();
        lemma_first_reaction(rest, user_id, reaction);
        let at = first_reaction(reactions, user_id, reaction);
        assert forall|k: int| 0 <= k < at implies !is_reaction_of(
            #[trigger] reactions[k],
            user_id,
            reaction,
        ) by {
            if k > 0 {
                assert(reactions[k] == rest[k - 1]);
            }
        }
    }
}

/// A place before which nothing matches, and which matches or is the end, is
/// where the first reaction is.
proof fn lemma_first_reaction_unique(
    reactions: Seq<ChatMessageReactionView>,
    user_id: Seq<char>,
    reaction: Seq<char>,
    at: int,
)
    requires
        0 <= at <= reactions.len(),
        at < reactions.len() ==> is_reaction_of(reactions[at], user_id, reaction),
        forall|k: int|
            0 <= k < at ==> !is_reaction_of(#[trigger] reactions[k], user_id, reaction),
    ensures
        first_reaction(reactions, user_id, reaction) == at,
{
    lemma_first_reaction(reactions, user_id, reaction);
    let found = first_reaction(reactions, user_id, reaction);
    if found < at {
        assert(is_reaction_of(reactions[found], user_id, reaction));
    }
    if at < found {
        assert(is_reaction_of(reactions[at], user_id, reaction));
    }
}

impl ChatReactionUser {
    /// A user with the same contents.
    pub fn copied(&self) -> (r: ChatReactionUser)
        ensures
            r@ == self@,
    {
        ChatReactionUser {
            id: self.id.clone(),
            name: match &self.name {
                Some(s) => Some(s.clone()),
                None => None,
            },
            username: self.username.clone(),
            host: match &self.host {
                Some(s) => Some(s.clone()),
                None => None,
            },
            avatar_url: match &self.avatar_url {
                Some(s) => Some(s.clone()),
                None => None,
            },
        }
    }
}

impl ChatMessage {
    /// The message with a reaction of `reactor` added, or with the first such
    /// reaction taken away; nothing where there is none to take away.
    pub fn reacted(
        self,
        reactor: &ChatReactionUser,
        reaction: &str,
        is_react: bool,
    ) -> (r: Option<ChatMessage>)
        ensures
            r.deep_view() == reacted(self@, reactor@, reaction@, is_react),
    {
        let mut msg = self;
        if is_react {
            let added = ChatMessageReaction {
                user: Some(reactor.copied()),
                reaction: reaction.to_owned(),
            };
            msg.reactions.push(added);
            assert(msg@.reactions =~= self@.reactions.push(added@));
            return Some(msg);
        }
        let wanted: String = reaction.to_owned();
        let mut i: usize = 0;
        while i < msg.reactions.len()
            invariant
                !is_react,
                msg == self,
                wanted@ == reaction@,
                i <= msg.reactions@.len(),
                forall|k: int|
                    0 <= k < i ==> !is_reaction_of(
                        #[trigger] self@.reactions[k],
                        reactor@.id,
                        reaction@,
                    ),
            decreases msg.reactions@.len() - i,
        {
            let candidate = &msg.reactions[i];
            assert(self@.reactions[i as int] == candidate@);
            let by_reactor = match &candidate.user {
                Some(u) => u.id == reactor.id,
                None => false,
            };
            if candidate.reaction == wanted && by_reactor {
                proof {
                    lemma_first_reaction_unique(
                        self@.reactions,
                        reactor@.id,
                        reaction@,
                        i as int,
                    );
                }
                msg.reactions.remove(i);
                assert(msg@.reactions =~= self@.reactions.remove(i as int));
                return Some(msg);
            }
            i += 1;
        }
        proof {
            lemma_first_reaction_unique(self@.reactions, reactor@.id, reaction@, i as int);
        }
        None
    }
}

} // verus!
