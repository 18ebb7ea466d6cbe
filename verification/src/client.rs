//! What a client keeps of a session: the messages it has seen, and the
//! names it has learnt for the ids of their authors.

use crate::broadcast::{Delivery, DeliveryView};
use crate::database::MessageFilter;
use crate::text::{decimal, decimal_of, line_views};
use crate::errors::AppError;
use crate::models::{message_views, Message, MessageView, UserView};
use crate::service::{ChatApp, ChatAppView};
use crate::session::after_lookup;
use crate::store_model::{find_user_by_id, insertion_point};
use crate::store_model::{lemma_insertion_point_exists, lemma_insertion_point_unique};
use crate::store_model::ordered_by_date;
use crate::token::LoginToken;
use std::collections::HashMap;
use vstd::prelude::*;
use vstd::string::StringExecFns;

verus! {

/// `messages` in the order of their dates, those of one date in the order
/// in which they stand in `messages`: each in turn goes where its date
/// puts it among those before it.
pub open spec fn arranged_by_date(messages: Seq<MessageView>) -> Seq<MessageView>
    decreases messages.len(),
{
    if messages.len() == 0 {
        messages
    } else {
        let earlier = arranged_by_date(messages.drop_last());
        earlier.insert(insertion_point(earlier, messages.last().date), messages.last())
    }
}

/// What `arranged_by_date` returns is in the order of its dates, and as
/// long as what it was given.
pub proof fn lemma_arranged_by_date(messages: Seq<MessageView>)
    ensures
        ordered_by_date(arranged_by_date(messages)),
        arranged_by_date(messages).len() == messages.len(),
        arranged_by_date(messages).to_multiset() == messages.to_multiset(),
    decreases messages.len(),
{
    if messages.len() > 0 {
        let rest = messages.drop_last();
        let last = messages.last();
        lemma_arranged_by_date(rest);
        let earlier = arranged_by_date(rest);
        lemma_insertion_point_exists(earlier, last.date);
        let at = insertion_point(earlier, last.date);
        let out = earlier.insert(at, last);
        let source = |i: int| if i < at { i } else { i - 1 };
        assert forall|i: int| 0 <= i < out.len() && i != at implies (#[trigger] out[i])
            == earlier[source(i)] by {}
        assert forall|i: int, j: int| 0 <= i < j < out.len() implies (#[trigger] out[i]).date <= (
        #[trigger] out[j]).date by {
            if i != at && j != at {
                assert(earlier[source(i)].date <= earlier[source(j)].date);
            } else if i == at {
                assert(earlier[source(j)].date > last.date);
            } else {
                assert(earlier[source(i)].date <= last.date);
            }
        }
        assert(messages =~= rest.push(last));
        vstd::seq_lib::to_multiset_insert(earlier, at, last);
        vstd::seq_lib::to_multiset_build(rest, last);
    }
}

/// Puts `messages` in the order of their dates, keeping the order of
/// messages of one date.
pub fn arrange_by_date(messages: Vec<Message>) -> (arranged: Vec<Message>)
    ensures
        message_views(arranged@) == arranged_by_date(message_views(messages@)),
{
    let mut arranged: Vec<Message> = Vec::new();
    let ghost given = message_views(messages@);
    let mut i: usize = 0;
    assert(given.subrange(0, 0) =~= Seq::<MessageView>::empty());
    while i < messages.len()
        invariant
            i <= messages@.len(),
            given == message_views(messages@),
            arranged@.len() == i,
            message_views(arranged@) == arranged_by_date(given.subrange(0, i as int)),
        decreases messages@.len() - i,
    {
        let message = messages[i].clone();
        let ghost earlier = message_views(arranged@);
        proof {
            lemma_arranged_by_date(given.subrange(0, i as int));
        }
        let mut at: usize = arranged.len();
        while at > 0 && arranged[at - 1].date > message.date
            invariant
                at <= arranged@.len(),
                earlier == message_views(arranged@),
                forall|k: int| at <= k < earlier.len() ==> (#[trigger] earlier[k]).date
                    > message.date,
            decreases at,
        {
            at -= 1;
        }
        proof {
            assert forall|k: int| 0 <= k < at implies (#[trigger] earlier[k]).date
                <= message.date by {
                if k < at - 1 {
                    assert(earlier[k].date <= earlier[at - 1].date);
                }
            }
            lemma_insertion_point_unique(earlier, message.date, at as int);
            let next = given.subrange(0, i + 1);
            assert(next.drop_last() =~= given.subrange(0, i as int));
            assert(next.last() == message@);
        }
        arranged.insert(at, message);
        assert(message_views(arranged@) =~= earlier.insert(at as int, message@));
        i += 1;
    }
    assert(given.subrange(0, i as int) =~= given);
    arranged
}

/// `ids` without the ids that repeat the one before them.
pub open spec fn without_repeats(ids: Seq<i32>) -> Seq<i32>
    decreases ids.len(),
{
    if ids.len() == 0 {
        ids
    } else {
        let kept = without_repeats(ids.drop_last());
        if ids.len() >= 2 && ids[ids.len() - 2] == ids.last() {
            kept
        } else {
            kept.push(ids.last())
        }
    }
}

/// The ids of the authors of `messages`, in the order of the messages.
pub open spec fn author_ids(messages: Seq<MessageView>) -> Seq<i32> {
    messages.map_values(|m: MessageView| m.userid)
}

/// The ids to ask names for: the ids of the authors of `messages` that are
/// not among `known`, in the order of the messages, an id that follows
/// itself taken once.
pub open spec fn missing_ids(messages: Seq<MessageView>, known: Set<i32>) -> Seq<i32> {
    without_repeats(author_ids(messages).filter(|id: i32| !known.contains(id)))
}

/// `known` with the names in `names` added, a later name for an id in
/// place of an earlier one.
pub open spec fn with_names(known: Map<i32, Seq<char>>, names: Seq<(i32, Seq<char>)>) -> Map<
    i32,
    Seq<char>,
>
    decreases names.len(),
{
    if names.len() == 0 {
        known
    } else {
        with_names(known, names.drop_last()).insert(names.last().0, names.last().1)
    }
}

/// `known` with the names of the authors of `messages` added, as far as
/// `users` has them: of each author in turn that is not yet known and that
/// is a user, the name.
pub open spec fn learnt_names(
    known: Map<i32, Seq<char>>,
    users: Seq<UserView>,
    messages: Seq<MessageView>,
) -> Map<i32, Seq<char>>
    decreases messages.len(),
{
    if messages.len() == 0 {
        known
    } else {
        let sofar = learnt_names(known, users, messages.drop_last());
        let author = messages.last().userid;
        if sofar.contains_key(author) {
            sofar
        } else {
            match find_user_by_id(users, author) {
                Some(user) => sofar.insert(user.id, user.username),
                None => sofar,
            }
        }
    }
}

/// The names in a table of names, as contracts see them.
pub open spec fn names_view(names: Map<i32, String>) -> Map<i32, Seq<char>> {
    names.map_values(|name: String| name@)
}

/// Pairs of an id and a name, as contracts see them.
pub open spec fn pairs_view(pairs: Seq<(i32, String)>) -> Seq<(i32, Seq<char>)> {
    pairs.map_values(|pair: (i32, String)| (pair.0, pair.1@))
}

/// What a client keeps of one session.
#[derive(Debug)]
pub struct SessionData {
    pub token: LoginToken,
    pub last_update: i64,
    pub messages: Vec<Message>,
    pub known_usernames: HashMap<i32, String>,
}

/// What a [`SessionData`] stands for in contracts.
pub struct SessionDataView {
    pub token: Seq<char>,
    pub last_update: i64,
    pub messages: Seq<MessageView>,
    pub known_usernames: Map<i32, Seq<char>>,
}

impl View for SessionData {
    type V = SessionDataView;

    open spec fn view(&self) -> SessionDataView {
        SessionDataView {
            token: self.token@,
            last_update: self.last_update,
            messages: message_views(self.messages@),
            known_usernames: names_view(self.known_usernames@),
        }
    }
}

/// What setting up the state of a session at `now` answers: the messages
/// from before `now` that a reading returns, and the names of their
/// authors.
pub open spec fn fresh_session(app: ChatAppView, token: Seq<char>, now: i64) -> Result<
    SessionDataView,
    AppError,
> {
    match app.get_messages_outcome(token, MessageFilter::Before(now), now) {
        Err(e) => Err(e),
        Ok(messages) => Ok(
            SessionDataView {
                token,
                last_update: now,
                messages,
                known_usernames: learnt_names(Map::empty(), app.db.users, messages),
            },
        ),
    }
}

/// What bringing the state of a session up to date at `now` answers.
pub open spec fn update_outcome(session: SessionDataView, app: ChatAppView, now: i64) -> Result<
    (),
    AppError,
> {
    match app.get_messages_outcome(
        session.token,
        MessageFilter::After(session.last_update),
        now,
    ) {
        Err(e) => Err(e),
        Ok(_) => Ok(()),
    }
}

/// The state of a session after it was brought up to date at `now`: the
/// messages from after the last update that a reading returns are added,
/// with the names of their authors, and if there are any, `now` is the
/// last update. A reading returns a limited number of messages: where
/// more have come since the last update, those beyond the limit are never
/// seen.
pub open spec fn updated_session(session: SessionDataView, app: ChatAppView, now: i64) -> SessionDataView {
    match app.get_messages_outcome(
        session.token,
        MessageFilter::After(session.last_update),
        now,
    ) {
        Err(_) => session,
        Ok(messages) => if messages.len() == 0 {
            session
        } else {
            SessionDataView {
                last_update: now,
                messages: session.messages + messages,
                known_usernames: learnt_names(session.known_usernames, app.db.users, messages),
                ..session
            }
        },
    }
}

/// An answer that holds the state of a session, as contracts see it.
pub open spec fn session_view(r: Result<SessionData, AppError>) -> Result<SessionDataView, AppError> {
    match r {
        Ok(session) => Ok(session@),
        Err(e) => Err(e),
    }
}

/// The label of an author: the name that `known` has for it, or else its
/// id in decimal.
pub open spec fn label_of(known: Map<i32, Seq<char>>, author: i32) -> Seq<char> {
    if known.contains_key(author) {
        known[author]
    } else {
        decimal_of(author as int)
    }
}

/// The lines that show `messages`, with `known` as the names of authors.
pub open spec fn lines_of(messages: Seq<MessageView>, known: Map<i32, Seq<char>>) -> Seq<Seq<char>> {
    messages.map_values(|m: MessageView| line_of(label_of(known, m.userid), m.messagetext))
}

/// Whether `after` is what the service `before` becomes when the state of
/// a session is set up at `now`, with `outcome` as the answer.
pub open spec fn is_fresh_session(
    before: ChatAppView,
    after: ChatAppView,
    outcome: Result<SessionDataView, AppError>,
    token: Seq<char>,
    now: i64,
) -> bool {
    outcome == fresh_session(before, token, now) && after == before.with_sessions(
        after_lookup(before.sessions, token, now),
    )
}

/// Whether `session_after` and `app_after` are what `session` and `app`
/// become when the session is brought up to date at `now`, with `outcome`
/// as the answer.
pub open spec fn is_update(
    session: SessionDataView,
    session_after: SessionDataView,
    app: ChatAppView,
    app_after: ChatAppView,
    outcome: Result<(), AppError>,
    now: i64,
) -> bool {
    &&& outcome == update_outcome(session, app, now)
    &&& session_after == updated_session(session, app, now)
    &&& app_after == app.with_sessions(after_lookup(app.sessions, session.token, now))
}

/// Whether there may be more to take from a feed.
#[derive(Debug, Clone, Copy, PartialEq, Eq, Structural)]
pub enum Drained {
    /// Something was taken; there may be more.
    More,
    /// Nothing waits.
    Done,
    /// The feed is closed.
    Disconnected,
}

/// Adds to `known` the names of the authors of `messages` that it lacks,
/// as far as the service has users for them.
fn learn_authors(app: &mut ChatApp, known: &mut HashMap<i32, String>, messages: &Vec<Message>)
    requires
        old(app).wf(),
    ensures
        final(app).wf(),
        final(app)@ == old(app)@,
        names_view(final(known)@) == learnt_names(
            names_view(old(known)@),
            old(app)@.db.users,
            message_views(messages@),
        ),
{
    broadcast use vstd::std_specs::hash::group_hash_axioms;

    let ghost given = message_views(messages@);
    let ghost users = app@.db.users;
    let ghost start = names_view(known@);
    let mut i: usize = 0;
    assert(given.subrange(0, 0) =~= Seq::<MessageView>::empty());
    while i < messages.len()
        invariant
            i <= messages@.len(),
            app.wf(),
            app@ == old(app)@,
            users == app@.db.users,
            given == message_views(messages@),
            names_view(known@) == learnt_names(start, users, given.subrange(0, i as int)),
        decreases messages@.len() - i,
    {
        let author = messages[i].userid;
        let ghost sofar = names_view(known@);
        let ghost before = known@;
        proof {
            let next = given.subrange(0, i + 1);
            assert(next.drop_last() =~= given.subrange(0, i as int));
            assert(next.last().userid == author);
            assert(sofar.contains_key(author) == before.contains_key(author));
        }
        if !known.contains_key(&author) {
            if let Ok(user) = app.get_user_by_id(author) {
                proof {
                    crate::store_model::lemma_found_user_has_id(users, author);
                }
                known.insert(user.id, user.username);
                assert(names_view(known@) =~= sofar.insert(user.id, user.username@));
            }
        }
        i += 1;
    }
    assert(given.subrange(0, i as int) =~= given);
}

impl SessionData {
    /// Sets up the state of a session at `now`, from the service itself.
    pub fn new_at(app: &mut ChatApp, token: LoginToken, now: i64) -> (r: Result<
        SessionData,
        AppError,
    >)
        requires
            old(app).wf(),
        ensures
            final(app).wf(),
            session_view(r) == fresh_session(old(app)@, token@, now),
            final(app)@ == old(app)@.with_sessions(after_lookup(old(app)@.sessions, token@, now)),
    {
        let messages = match app.get_messages_at(&token, &MessageFilter::Before(now), now) {
            Ok(messages) => messages,
            Err(e) => {
                return Err(e);
            },
        };
        let mut known_usernames: HashMap<i32, String> = HashMap::new();
        assert(names_view(known_usernames@) =~= Map::<i32, Seq<char>>::empty());
        learn_authors(app, &mut known_usernames, &messages);
        Ok(SessionData { token, last_update: now, messages, known_usernames })
    }

    /// Sets up the state of a session at the present time.
    pub fn new(app: &mut ChatApp, token: LoginToken) -> (r: Result<SessionData, AppError>)
        requires
            old(app).wf(),
        ensures
            final(app).wf(),
            exists|now: i64| #[trigger]
                is_fresh_session(old(app)@, final(app)@, session_view(r), token@, now),
    {
        let now = crate::clock::current_time_millis();
        let ghost offered = token@;
        let r = SessionData::new_at(app, token, now);
        assert(is_fresh_session(old(app)@, app@, session_view(r), offered, now));
        r
    }

    /// Brings the state up to date at `now`, from the service itself.
    pub fn update_at(&mut self, app: &mut ChatApp, now: i64) -> (r: Result<(), AppError>)
        requires
            old(app).wf(),
        ensures
            final(app).wf(),
            r == update_outcome(old(self)@, old(app)@, now),
            final(self)@ == updated_session(old(self)@, old(app)@, now),
            final(app)@ == old(app)@.with_sessions(
                after_lookup(old(app)@.sessions, old(self)@.token, now),
            ),
    {
        let mut messages = match app.get_messages_at(
            &self.token,
            &MessageFilter::After(self.last_update),
            now,
        ) {
            Ok(messages) => messages,
            Err(e) => {
                return Err(e);
            },
        };
        if messages.len() > 0 {
            let ghost added = message_views(messages@);
            let ghost kept = message_views(self.messages@);
            learn_authors(app, &mut self.known_usernames, &messages);
            self.messages.append(&mut messages);
            self.last_update = now;
            assert(message_views(self.messages@) =~= kept + added);
        }
        Ok(())
    }

    /// Brings the state up to date at the present time.
    pub fn update(&mut self, app: &mut ChatApp) -> (r: Result<(), AppError>)
        requires
            old(app).wf(),
        ensures
            final(app).wf(),
            exists|now: i64| #[trigger]
                is_update(old(self)@, final(self)@, old(app)@, final(app)@, r, now),
    {
        let now = crate::clock::current_time_millis();
        let r = self.update_at(app, now);
        assert(is_update(old(self)@, self@, old(app)@, app@, r, now));
        r
    }

    /// Takes in what the feed handed over: a message is added to those
    /// seen. The answer says whether to ask the feed again.
    pub fn absorb(&mut self, delivery: Delivery) -> (drained: Drained)
        ensures
            drained == (match delivery@ {
                DeliveryView::Message(_) => Drained::More,
                DeliveryView::Lagged(_) => Drained::More,
                DeliveryView::Empty => Drained::Done,
                DeliveryView::Closed => Drained::Disconnected,
            }),
            final(self)@ == (match delivery@ {
                DeliveryView::Message(message) => SessionDataView {
                    messages: old(self)@.messages.push(message),
                    ..old(self)@
                },
                _ => old(self)@,
            }),
    {
        match delivery {
            Delivery::Message(message) => {
                let ghost kept = message_views(self.messages@);
                self.messages.push(message);
                assert(message_views(self.messages@) =~= kept.push(message@));
                Drained::More
            },
            Delivery::Lagged(_) => Drained::More,
            Delivery::Empty => Drained::Done,
            Delivery::Closed => Drained::Disconnected,
        }
    }

    /// The lines that show the messages seen: each with the name of its
    /// author, or with the author's id in decimal where the name is not
    /// known.
    pub fn lines(&self) -> (lines: Vec<String>)
        ensures
            line_views(lines@) == lines_of(self@.messages, self@.known_usernames),
    {
        broadcast use vstd::std_specs::hash::group_hash_axioms;

        let mut lines: Vec<String> = Vec::new();
        let mut i: usize = 0;
        while i < self.messages.len()
            invariant
                i <= self.messages@.len(),
                lines@.len() == i,
                forall|k: int|
                    0 <= k < i ==> (#[trigger] lines@[k])@ == line_of(
                        label_of(self@.known_usernames, self.messages@[k].userid),
                        self.messages@[k].messagetext@,
                    ),
            decreases self.messages@.len() - i,
        {
            let message = &self.messages[i];
            let line = match self.known_usernames.get(&message.userid) {
                Some(name) => message_line(name.as_str(), message.messagetext.as_str()),
                None => message_line(
                    decimal(message.userid).as_str(),
                    message.messagetext.as_str(),
                ),
            };
            lines.push(line);
            i += 1;
        }
        assert(line_views(lines@) =~= lines_of(self@.messages, self@.known_usernames));
        lines
    }

    /// The ids to ask the service names for.
    pub fn missing_user_ids(&self) -> (ids: Vec<i32>)
        ensures
            ids@ == missing_ids(self@.messages, self@.known_usernames.dom()),
    {
        broadcast use vstd::std_specs::hash::group_hash_axioms;

        let ghost known = self@.known_usernames.dom();
        let ghost unknown = |id: i32| !known.contains(id);
        let ghost authors = author_ids(self@.messages);
        let mut ids: Vec<i32> = Vec::new();
        let mut previous: Option<i32> = None;
        let mut i: usize = 0;
        proof {
            reveal(Seq::filter);
            assert(authors.subrange(0, 0) =~= Seq::<i32>::empty());
            assert(self@.known_usernames.dom() =~= self.known_usernames@.dom());
        }
        while i < self.messages.len()
            invariant
                i <= self.messages@.len(),
                known == self@.known_usernames.dom(),
                known == self.known_usernames@.dom(),
                unknown == |id: i32| !known.contains(id),
                authors == author_ids(self@.messages),
                authors.len() == self.messages@.len(),
                ids@ == without_repeats(authors.subrange(0, i as int).filter(unknown)),
                match previous {
                    Some(id) => authors.subrange(0, i as int).filter(unknown).len() > 0
                        && authors.subrange(0, i as int).filter(unknown).last() == id,
                    None => authors.subrange(0, i as int).filter(unknown).len() == 0,
                },
            decreases self.messages@.len() - i,
        {
            let author = self.messages[i].userid;
            let ghost seen = authors.subrange(0, i as int).filter(unknown);
            proof {
                reveal(Seq::filter);
                let next = authors.subrange(0, i + 1);
                assert(next.drop_last() =~= authors.subrange(0, i as int));
                assert(next.last() == author);
            }
            if !self.known_usernames.contains_key(&author) {
                proof {
                    let grown = seen.push(author);
                    assert(grown.drop_last() =~= seen);
                }
                if previous != Some(author) {
                    ids.push(author);
                }
                previous = Some(author);
            }
            i += 1;
        }
        assert(authors.subrange(0, i as int) =~= authors);
        ids
    }

    /// Takes in the names that the service gave for ids that were asked
    /// for.
    pub fn learn_names(&mut self, names: Vec<(i32, String)>)
        ensures
            final(self)@ == (SessionDataView {
                known_usernames: with_names(old(self)@.known_usernames, pairs_view(names@)),
                ..old(self)@
            }),
    {
        broadcast use vstd::std_specs::hash::group_hash_axioms;

        let ghost given = pairs_view(names@);
        let ghost start = self@.known_usernames;
        let mut names = names;
        let mut i: usize = 0;
        assert(given.subrange(0, 0) =~= Seq::<(i32, Seq<char>)>::empty());
        while i < names.len()
            invariant
                i <= names@.len(),
                given == pairs_view(names@),
                self.token == old(self).token,
                self.last_update == old(self).last_update,
                self.messages == old(self).messages,
                self@.known_usernames == with_names(start, given.subrange(0, i as int)),
            decreases names@.len() - i,
        {
            let id = names[i].0;
            let name = names[i].1.clone();
            let ghost sofar = self@.known_usernames;
            proof {
                let next = given.subrange(0, i + 1);
                assert(next.drop_last() =~= given.subrange(0, i as int));
                assert(next.last() == (id, name@));
            }
            self.known_usernames.insert(id, name);
            assert(self@.known_usernames =~= sofar.insert(id, name@));
            i += 1;
        }
        assert(given.subrange(0, i as int) =~= given);
    }
}

/// The line that shows a message: the author's label, a colon and a
/// space, and the text.
pub open spec fn line_of(label: Seq<char>, text: Seq<char>) -> Seq<char> {
    label + ": "@ + text
}

/// The line that shows a message.
pub fn message_line(label: &str, text: &str) -> (line: String)
    ensures
        line@ == line_of(label@, text@),
{
    String::from_str(label).concat(": ").concat(text)
}

} // verus!
