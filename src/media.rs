//! Playback policy: which media players to pause, and which to resume.
//!
//! Pausing looks at every player on the session bus whose name marks it as a
//! media player, leaving out remote-control bridges; the players actually
//! paused are remembered, and only those are resumed later.
use vstd::prelude::*;

verus! {

/// `p` is a prefix of `s`.
pub open spec fn is_prefix(p: Seq<char>, s: Seq<char>) -> bool {
    p.len() <= s.len() && s.subrange(0, p.len() as int) == p
}

/// `n` occurs somewhere in `s`.
pub open spec fn occurs_in(n: Seq<char>, s: Seq<char>) -> bool {
    exists|i: int| 0 <= i && i + n.len() <= s.len() && #[trigger] s.subrange(i, i + n.len()) == n
}

/// Relies on `str::starts_with`: true when `prefix` matches the start of `s`.
#[verifier::external_body]
fn starts_with(s: &str, prefix: &str) -> (r: bool)
    ensures
        r == is_prefix(prefix@, s@),
{
    s.starts_with(prefix)
}

/// Relies on `str::contains`: true when `needle` matches some part of `s`.
#[verifier::external_body]
fn contains(s: &str, needle: &str) -> (r: bool)
    ensures
        r == occurs_in(needle@, s@),
{
    s.contains(needle)
}

/// A bus name that belongs to a media player whose playback may be paused:
/// one under the media-player namespace that is not a remote-control bridge.
pub open spec fn is_media_player(name: Seq<char>) -> bool {
    &&& is_prefix("org.mpris.MediaPlayer2."@, name)
    &&& !occurs_in("kdeconnect"@, name)
    &&& !occurs_in("KDEConnect"@, name)
}

/// The character sequences of a list of strings.
pub open spec fn names_of(v: Seq<String>) -> Seq<Seq<char>> {
    v.map_values(|s: String| s@)
}

/// The media players among `names`, in their order.
pub open spec fn media_players_of(names: Seq<Seq<char>>) -> Seq<Seq<char>> {
    names.filter(|n: Seq<char>| is_media_player(n))
}

/// Two sequences, each a prefix of the other, are equal.
proof fn lemma_mutual_prefix(a: Seq<char>, b: Seq<char>)
    ensures
        (is_prefix(a, b) && is_prefix(b, a)) == (a == b),
{
    if a == b {
        assert(a.subrange(0, a.len() as int) =~= a);
    }
    if is_prefix(a, b) && is_prefix(b, a) {
        assert(a.len() == b.len());
        assert(b.subrange(0, b.len() as int) =~= b);
    }
}

/// Whether a reported playback status means the player is playing.
pub fn is_playing_status(status: &str) -> (r: bool)
    ensures
        r == (status@ == "Playing"@),
{
    let r = starts_with(status, "Playing") && starts_with("Playing", status);
    proof {
        lemma_mutual_prefix(status@, "Playing"@);
    }
    r
}

/// Notes the outcome of one player in a pause round: the player is
/// remembered for resuming only if it was playing and pausing it succeeded.
pub fn note_pause(paused: &mut Vec<String>, player: String, was_playing: bool, pause_succeeded: bool)
    ensures
        was_playing && pause_succeeded ==> names_of(final(paused)@) == names_of(old(paused)@).push(
            player@,
        ),
        !(was_playing && pause_succeeded) ==> final(paused)@ == old(paused)@,
{
    let ghost before = paused@;
    if was_playing && pause_succeeded {
        paused.push(player);
        assert(names_of(paused@) =~= names_of(before).push(player@));
    }
}

/// Whether `name` is a media player whose playback may be paused.
pub fn is_media_player_name(name: &str) -> (r: bool)
    ensures
        r == is_media_player(name@),
{
    starts_with(name, "org.mpris.MediaPlayer2.") && !contains(name, "kdeconnect") && !contains(
        name,
        "KDEConnect",
    )
}

/// The media players among the bus names `names`, in their order.
pub fn media_players(names: &Vec<String>) -> (r: Vec<String>)
    ensures
        names_of(r@) == media_players_of(names_of(names@)),
{
    let mut out: Vec<String> = Vec::new();
    let mut i: usize = 0;
    while i < names.len()
        invariant
            i <= names@.len(),
            names_of(out@) == media_players_of(names_of(names@.subrange(0, i as int))),
        decreases names@.len() - i,
    {
        let ghost before = out@;
        assert(names_of(names@.subrange(0, i + 1)).drop_last() =~= names_of(
            names@.subrange(0, i as int),
        ));
        proof {
            reveal(Seq::filter);
        }
        if is_media_player_name(names[i].as_str()) {
            out.push(names[i].clone());
            assert(names_of(out@) =~= names_of(before).push(names@[i as int]@));
        }
        i = i + 1;
    }
    assert(names@.subrange(0, i as int) =~= names@);
    out
}

/// The players that were paused on ear removal, to be resumed once both
/// earbuds are back in.
pub struct PausedPlayers {
    names: Vec<String>,
}

impl View for PausedPlayers {
    type V = Seq<Seq<char>>;

    closed spec fn view(&self) -> Seq<Seq<char>> {
        names_of(self.names@)
    }
}

impl PausedPlayers {
    /// No player paused.
    pub fn new() -> (r: Self)
        ensures
            r@ == Seq::<Seq<char>>::empty(),
    {
        let r = PausedPlayers { names: Vec::new() };
        assert(r@ =~= Seq::<Seq<char>>::empty());
        r
    }

    /// `true` when no paused player waits to be resumed.
    pub fn is_empty(&self) -> (r: bool)
        ensures
            r == (self@.len() == 0),
    {
        self.names.len() == 0
    }

    /// Remembers the players just paused. A pause round that paused nothing
    /// keeps the players remembered from before.
    pub fn record(&mut self, paused: Vec<String>)
        ensures
            paused@.len() == 0 ==> final(self)@ == old(self)@,
            paused@.len() > 0 ==> final(self)@ == names_of(paused@),
    {
        if paused.len() > 0 {
            self.names = paused;
        }
    }

    /// Hands out the players to resume and forgets them.
    pub fn take(&mut self) -> (r: Vec<String>)
        ensures
            names_of(r@) == old(self)@,
            final(self)@ == Seq::<Seq<char>>::empty(),
    {
        let mut taken: Vec<String> = Vec::new();
        std::mem::swap(&mut taken, &mut self.names);
        assert(self@ =~= Seq::<Seq<char>>::empty());
        taken
    }
}

} // verus!
