//! Room and user addresses, and the rule that says who may send to whom.

use vstd::prelude::*;
use vstd::std_specs::iter::IteratorSpec;
use vstd::string::*;

verus! {

/// The mathematical value of an address: a room and an optional user.
pub struct EndpointView {
    pub room: Seq<char>,
    pub user: Option<Seq<char>>,
}

impl EndpointView {
    /// The address that no path resolved to: an empty room and no user.
    pub open spec fn empty() -> EndpointView {
        EndpointView { room: Seq::empty(), user: None }
    }

    /// What holds of every address: it is the empty address, or a room name
    /// with at most a user name.
    pub open spec fn well_formed(self) -> bool {
        ||| self == EndpointView::empty()
        ||| is_name(self.room) && (self.user matches Some(user) ==> is_name(user))
    }

    /// The routing rule, read from the sender: `other` is reached when it is in
    /// the same room and either has no user or has the sender's user.
    pub open spec fn can_send_to(self, other: EndpointView) -> bool {
        other.room == self.room && (other.user is None || other.user == self.user)
    }

    /// The name under which updates of this address are stored, if it has a user.
    pub open spec fn json_filename(self) -> Option<Seq<char>> {
        match self.user {
            Some(user) => Some(self.room + "_"@ + user + ".json"@),
            None => None,
        }
    }
}

/// A name that can stand in a path: at least one character, and no slash.
pub open spec fn is_name(s: Seq<char>) -> bool {
    s.len() > 0 && forall|j: int| 0 <= j < s.len() ==> s[j] != '/'
}

/// How many characters `s` holds before its first slash: all of them if it has none.
pub open spec fn segment_len(s: Seq<char>) -> nat
    decreases s.len(),
{
    if s.len() == 0 || s[0] == '/' {
        0
    } else {
        1 + segment_len(s.skip(1))
    }
}

/// The non-empty pieces of `s` that its slashes separate, in the order in which they occur.
pub open spec fn segments(s: Seq<char>) -> Seq<Seq<char>>
    decreases s.len(),
{
    if s.len() == 0 {
        Seq::empty()
    } else if s[0] == '/' {
        segments(s.skip(1))
    } else {
        proof {
            lemma_segment_len_bound(s);
        }
        seq![s.take(segment_len(s) as int)] + segments(s.skip(segment_len(s) as int))
    }
}

/// Whether `path` begins with a slash.
pub open spec fn starts_with_slash(path: Seq<char>) -> bool {
    path.len() > 0 && path[0] == '/'
}

/// The address that a request path denotes: `/room` or `/room/user`, where empty
/// segments do not count. Any other path denotes none.
pub open spec fn parse_path(path: Seq<char>) -> Option<EndpointView> {
    let parts = segments(path);
    if !starts_with_slash(path) {
        None
    } else if parts.len() == 1 {
        Some(EndpointView { room: parts[0], user: None })
    } else if parts.len() == 2 {
        Some(EndpointView { room: parts[0], user: Some(parts[1]) })
    } else {
        None
    }
}

/// What is said of a path that denotes no address: the rule that it broke,
/// then the path itself.
pub open spec fn refusal(path: Seq<char>) -> Seq<char> {
    if starts_with_slash(path) {
        "Path not correct: "@ + path
    } else {
        "Not starting with /: "@ + path
    }
}

/// The request path that denotes an address: a slash and the room, then, if
/// there is a user, a slash and the user.
pub open spec fn path_of(address: EndpointView) -> Seq<char> {
    match address.user {
        Some(user) => seq!['/'] + address.room + seq!['/'] + user,
        None => seq!['/'] + address.room,
    }
}

/// The address of a connection: a room, and optionally a user within it.
#[derive(Debug)]
pub struct BonzoEndpoint {
    room: String,
    user: Option<String>,
}

impl View for BonzoEndpoint {
    type V = EndpointView;

    closed spec fn view(&self) -> EndpointView {
        EndpointView {
            room: self.room@,
            user: match self.user {
                Some(user) => Some(user@),
                None => None,
            },
        }
    }
}

impl Clone for BonzoEndpoint {
    fn clone(&self) -> (copy: Self)
        ensures
            copy@ == self@,
    {
        proof {
            use_type_invariant(self);
        }
        let user = match &self.user {
            Some(user) => Some(user.clone()),
            None => None,
        };
        BonzoEndpoint { room: self.room.clone(), user }
    }
}

/// Writes the message for a refused path: the rule, then the path.
fn refuse(rule: &str, path: &str) -> (message: String)
    ensures
        message@ == rule@ + path@,
{
    let mut message = String::from_str(rule);
    message.append(path);
    message
}

impl BonzoEndpoint {
    #[verifier::type_invariant]
    spec fn valid(self) -> bool {
        self@.well_formed()
    }

    /// The address of a connection whose path did not resolve.
    pub fn empty() -> (endpoint: Self)
        ensures
            endpoint@ == EndpointView::empty(),
            endpoint@.well_formed(),
    {
        BonzoEndpoint { room: String::default(), user: None }
    }

    /// Resolves a request path to an address.
    ///
    /// The path must begin with a slash. Its segments are the non-empty pieces
    /// between slashes: one segment is a room, two are a room and a user. Every
    /// other path is refused, with a message that says which rule the path
    /// broke and names the path.
    pub fn parse_resource(query: &str) -> (parsed: Result<BonzoEndpoint, String>)
        ensures
            parsed matches Ok(endpoint) ==> parse_path(query@) == Some(endpoint@)
                && endpoint@.well_formed() && is_name(endpoint@.room),
            parsed is Err <==> parse_path(query@) is None,
            parsed matches Err(message) ==> message@ == refusal(query@),
    {
        broadcast use group_string_axioms;

        let total = query.unicode_len();
        let mut chars = query.chars();
        let mut at: usize = 0;
        let mut open: Option<usize> = None;
        let mut found: Vec<(usize, usize)> = Vec::new();
        assert(query@.skip(0) == query@);
        loop
            invariant
                total == query@.len(),
                at <= total,
                chars.remaining() == query@.skip(at as int),
                at > 0 ==> starts_with_slash(query@),
                found.len() <= 2,
                forall|i: int|
                    0 <= i < found.len() ==> (#[trigger] found[i]).0 < found[i].1 <= at,
                match open {
                    Some(start) => {
                        &&& start < at
                        &&& forall|j: int| start <= j < at ==> query@[j] != '/'
                        &&& segments(query@) == cut(query@, found@) + segments(
                            query@.skip(start as int),
                        )
                    },
                    None => segments(query@) == cut(query@, found@) + segments(
                        query@.skip(at as int),
                    ),
                },
            ensures
                at == total,
            decreases total - at,
        {
            let ghost rest = query@.skip(at as int);
            let c = match chars.next() {
                Some(c) => c,
                None => {
                    break ;
                },
            };
            assert(c == query@[at as int]) by {
                assert(rest[0] == query@[at as int]);
            }
            assert(rest.skip(1) == query@.skip(at + 1));
            if c == '/' {
                if let Some(start) = open {
                    if found.len() == 2 {
                        proof {
                            lemma_segment_ends(query@, start as int, at as int);
                        }
                        return Err(refuse("Path not correct: ", query));
                    }
                    proof {
                        lemma_segment_ends(query@, start as int, at as int);
                        lemma_cut_push(query@, found@, (start, at));
                    }
                    found.push((start, at));
                    open = None;
                }
            } else {
                if at == 0 {
                    return Err(refuse("Not starting with /: ", query));
                }
                if open.is_none() {
                    open = Some(at);
                }
            }
            at = at + 1;
        }
        if at == 0 {
            return Err(refuse("Not starting with /: ", query));
        }
        if let Some(start) = open {
            if found.len() == 2 {
                proof {
                    lemma_segment_ends(query@, start as int, at as int);
                }
                return Err(refuse("Path not correct: ", query));
            }
            proof {
                lemma_segment_ends(query@, start as int, at as int);
                lemma_cut_push(query@, found@, (start, at));
            }
            found.push((start, at));
        }
        proof {
            assert(query@.skip(at as int).len() == 0);
            assert(segments(query@) == cut(query@, found@));
            lemma_segments_are_names(query@);
        }
        if found.len() == 1 {
            let room = query.substring_char(found[0].0, found[0].1).to_owned();
            Ok(BonzoEndpoint { room, user: None })
        } else if found.len() == 2 {
            let room = query.substring_char(found[0].0, found[0].1).to_owned();
            let user = query.substring_char(found[1].0, found[1].1).to_owned();
            Ok(BonzoEndpoint { room, user: Some(user) })
        } else {
            Err(refuse("Path not correct: ", query))
        }
    }

    /// The room of this address.
    pub fn room(&self) -> (room: &str)
        ensures
            room@ == self@.room,
            self@.well_formed(),
    {
        proof {
            use_type_invariant(self);
        }
        self.room.as_str()
    }

    /// The user of this address, if it has one.
    pub fn user(&self) -> (user: Option<&str>)
        ensures
            user is Some == self@.user is Some,
            user matches Some(name) ==> name@ == self@.user->0,
            self@.well_formed(),
    {
        proof {
            use_type_invariant(self);
        }
        match &self.user {
            Some(user) => Some(user.as_str()),
            None => None,
        }
    }

    /// Whether a message sent from this address is delivered to `other`.
    pub fn can_send_to(&self, other: &BonzoEndpoint) -> (allowed: bool)
        ensures
            allowed == self@.can_send_to(other@),
            allowed <==> other@.room == self@.room && (other@.user is None || other@.user
                == self@.user),
    {
        if !(other.room == self.room) {
            return false;
        }
        match &other.user {
            None => true,
            Some(theirs) => match &self.user {
                Some(ours) => *theirs == *ours,
                None => false,
            },
        }
    }

    /// The file name under which updates from this address are stored.
    /// Addresses without a user have none.
    pub fn json_filename(&self) -> (name: Result<String, ()>)
        ensures
            name is Ok <==> self@.user is Some,
            name matches Ok(file) ==> Some(file@) == self@.json_filename(),
    {
        match &self.user {
            Some(user) => {
                let mut file = self.room.clone();
                file.append("_");
                file.append(user.as_str());
                file.append(".json");
                Ok(file)
            },
            None => Err(()),
        }
    }
}

/// A sender without a user reaches only addresses without a user, in its room.
pub proof fn lemma_room_sender_reaches_rooms(sender: EndpointView, other: EndpointView)
    requires
        sender.user is None,
    ensures
        sender.can_send_to(other) <==> other == sender,
{
}

/// The routing rule is not symmetric: a sender with a user reaches the address
/// of its room, which does not reach it.
pub proof fn lemma_routing_is_one_way(room: Seq<char>, user: Seq<char>)
    ensures
        (EndpointView { room, user: Some(user) }).can_send_to(EndpointView { room, user: None }),
        !(EndpointView { room, user: None }).can_send_to(EndpointView { room, user: Some(user) }),
{
}

/// Every address reaches itself and the address of its room.
pub proof fn lemma_reaches_own_room(sender: EndpointView)
    ensures
        sender.can_send_to(sender),
        sender.can_send_to(EndpointView { room: sender.room, user: None }),
{
}

/// Every address with a room is the one that its own path denotes.
pub proof fn lemma_path_denotes_address(address: EndpointView)
    requires
        address.well_formed(),
        is_name(address.room),
    ensures
        parse_path(path_of(address)) == Some(address),
{
    let path = path_of(address);
    let room = address.room;
    let after_slash = path.skip(1);
    let after_room = after_slash.skip(room.len() as int);
    assert(path[0] == '/');
    assert(segments(path) == segments(after_slash));
    assert forall|j: int| 0 <= j < room.len() implies after_slash[j] != '/' by {
        assert(after_slash[j] == room[j]);
    }
    assert(after_slash.take(room.len() as int) == room);
    match address.user {
        Some(user) => {
            assert(after_slash[room.len() as int] == '/');
            lemma_segment_run(after_slash, room.len() as int);
            assert(after_room[0] == '/');
            assert(after_room.skip(1) == user);
            assert(segments(after_room) == segments(user));
            lemma_segment_run(user, user.len() as int);
            assert(user.take(user.len() as int) == user);
            assert(user.skip(user.len() as int).len() == 0);
            assert(segments(path) == seq![room, user]);
        },
        None => {
            lemma_segment_run(after_slash, room.len() as int);
            assert(after_room.len() == 0);
            assert(segments(path) == seq![room]);
        },
    }
}

/// Every segment of a sequence is non-empty and holds no slash.
pub proof fn lemma_segments_are_names(s: Seq<char>)
    ensures
        forall|i: int| 0 <= i < segments(s).len() ==> is_name(#[trigger] segments(s)[i]),
    decreases s.len(),
{
    if s.len() == 0 {
    } else if s[0] == '/' {
        lemma_segments_are_names(s.skip(1));
        assert(segments(s) == segments(s.skip(1)));
    } else {
        lemma_segment_len_bound(s);
        lemma_segment_len_has_no_slash(s);
        let n = segment_len(s) as int;
        let head = s.take(n);
        let rest = segments(s.skip(n));
        lemma_segments_are_names(s.skip(n));
        assert(is_name(head)) by {
            assert forall|j: int| 0 <= j < head.len() implies head[j] != '/' by {
                assert(head[j] == s[j]);
            }
        }
        assert(segments(s) == seq![head] + rest);
        assert forall|i: int| 0 <= i < segments(s).len() implies is_name(
            #[trigger] segments(s)[i],
        ) by {
            if i == 0 {
                assert(segments(s)[0] == head);
            } else {
                assert(segments(s)[i] == rest[i - 1]);
            }
        }
    }
}

/// The first segment of a sequence never extends past its end.
pub proof fn lemma_segment_len_bound(s: Seq<char>)
    ensures
        segment_len(s) <= s.len(),
    decreases s.len(),
{
    if s.len() > 0 && s[0] != '/' {
        lemma_segment_len_bound(s.skip(1));
    }
}

/// No slash occurs before the end of the first segment.
proof fn lemma_segment_len_has_no_slash(s: Seq<char>)
    ensures
        segment_len(s) <= s.len(),
        forall|j: int| 0 <= j < segment_len(s) ==> s[j] != '/',
    decreases s.len(),
{
    lemma_segment_len_bound(s);
    if s.len() > 0 && s[0] != '/' {
        let rest = s.skip(1);
        lemma_segment_len_has_no_slash(rest);
        assert forall|j: int| 0 <= j < segment_len(s) implies s[j] != '/' by {
            if j > 0 {
                assert(s[j] == rest[j - 1]);
            }
        }
    }
}

/// A run of `k` characters without a slash, which ends where `s` ends or at a
/// slash, is the first segment of `s`.
proof fn lemma_segment_run(s: Seq<char>, k: int)
    requires
        0 < k <= s.len(),
        forall|j: int| 0 <= j < k ==> s[j] != '/',
        k == s.len() || s[k] == '/',
    ensures
        segment_len(s) == k,
        segments(s) == seq![s.take(k)] + segments(s.skip(k)),
    decreases k,
{
    if k > 1 {
        let rest = s.skip(1);
        assert forall|j: int| 0 <= j < k - 1 implies rest[j] != '/' by {
            assert(rest[j] == s[j + 1]);
        }
        lemma_segment_run(rest, k - 1);
    } else {
        assert(segment_len(s.skip(1)) == 0);
    }
}

/// Where a run without a slash begins at `start` and ends at `end`, at a slash
/// or at the end of `path`, the segments from `start` on are that run and then
/// the segments from `end` on.
proof fn lemma_segment_ends(path: Seq<char>, start: int, end: int)
    requires
        0 <= start < end <= path.len(),
        forall|j: int| start <= j < end ==> path[j] != '/',
        end == path.len() || path[end] == '/',
    ensures
        segments(path.skip(start)) == seq![path.subrange(start, end)] + segments(path.skip(end)),
        end < path.len() ==> segments(path.skip(end)) == segments(path.skip(end + 1)),
{
    let tail = path.skip(start);
    let k = end - start;
    assert forall|j: int| 0 <= j < k implies tail[j] != '/' by {
        assert(tail[j] == path[start + j]);
    }
    if end < path.len() {
        assert(tail[k] == path[end]);
        assert(path.skip(end)[0] == '/');
        assert(path.skip(end).skip(1) == path.skip(end + 1));
    }
    lemma_segment_run(tail, k);
    assert(tail.take(k) == path.subrange(start, end));
    assert(tail.skip(k) == path.skip(end));
}

/// The pieces of `path` that lie between the given bounds.
spec fn cut(path: Seq<char>, bounds: Seq<(usize, usize)>) -> Seq<Seq<char>> {
    bounds.map_values(|piece: (usize, usize)| path.subrange(piece.0 as int, piece.1 as int))
}

/// One more pair of bounds cuts one more piece.
proof fn lemma_cut_push(path: Seq<char>, bounds: Seq<(usize, usize)>, piece: (usize, usize))
    ensures
        cut(path, bounds.push(piece)) == cut(path, bounds).push(
            path.subrange(piece.0 as int, piece.1 as int),
        ),
{
    assert(cut(path, bounds.push(piece)) =~= cut(path, bounds).push(
        path.subrange(piece.0 as int, piece.1 as int),
    ));
}

} // verus!
