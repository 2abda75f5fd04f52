use vstd::prelude::*;
use crate::block::{Block, JukeboxLikeProperties, encode, decode};
use crate::pos::BlockPos;
use crate::text::{chars_of, same_chars};
use crate::world::{BlockFlags, BlockWrite, World, WorldEvent, WorldEffect};

verus! {

/// No character of `s` is a colon.
pub open spec fn colon_free(s: Seq<char>) -> bool {
    forall|k: int| 0 <= k < s.len() ==> s[k] != ':'
}

/// Index of the first colon of `s`, or its length where it has none.
pub open spec fn first_colon(s: Seq<char>) -> int {
    if exists|i: int| 0 <= i < s.len() && s[i] == ':' && colon_free(s.take(i)) {
        choose|i: int| 0 <= i < s.len() && s[i] == ':' && colon_free(s.take(i))
    } else {
        s.len() as int
    }
}

/// The second colon-delimited segment of a `<namespace>:<key>` media id,
/// absent where the id has no colon.
pub open spec fn song_key(media: Seq<char>) -> Option<Seq<char>> {
    let i = first_colon(media);
    if i >= media.len() {
        None
    } else {
        let rest = media.skip(i + 1);
        Some(rest.take(first_colon(rest)))
    }
}

/// Index of the first key of `keys` equal to `key`.
pub open spec fn index_of(keys: Seq<Seq<char>>, key: Seq<char>) -> Option<int> {
    if exists|i: int| 0 <= i < keys.len() && keys[i] == key {
        Some(choose|i: int| 0 <= i < keys.len() && keys[i] == key && forall|j: int| 0 <= j < i ==> keys[j] != key)
    } else {
        None
    }
}

/// Index of the first colon of `s` at or after `from`, or `s.len()`.
fn colon_from(s: &Vec<char>, from: usize) -> (r: usize)
    requires
        from <= s@.len(),
    ensures
        r == from + first_colon(s@.skip(from as int)),
        from <= r <= s@.len(),
{
    let ghost t = s@.skip(from as int);
    let mut i: usize = from;
    while i < s.len()
        invariant
            from <= i <= s@.len(),
            t == s@.skip(from as int),
            forall|k: int| from <= k < i ==> s@[k] != ':',
        decreases s@.len() - i,
    {
        if s[i] == ':' {
            proof {
                let w = i - from;
                assert(t[w] == ':');
                assert(colon_free(t.take(w)));
                let c = choose|c: int| 0 <= c < t.len() && t[c] == ':' && colon_free(t.take(c));
                if c < w {
                    assert(t.take(w)[c] == ':');
                }
                if c > w {
                    assert(t.take(c)[w] == ':');
                }
            }
            return i;
        }
        i = i + 1;
    }
    proof {
        if exists|c: int| 0 <= c < t.len() && t[c] == ':' && colon_free(t.take(c)) {
            let c = choose|c: int| 0 <= c < t.len() && t[c] == ':' && colon_free(t.take(c));
            assert(s@[from + c] == ':');
        }
    }
    i
}

/// The key segment of a media id, as `song_key` states it.
pub fn media_song_key(media: &str) -> (r: Option<Vec<char>>)
    ensures
        match r {
            Some(k) => song_key(media@) == Some(k@),
            None => song_key(media@) is None,
        },
{
    let s = chars_of(media);
    let i = colon_from(&s, 0);
    proof {
        assert(s@.skip(0) =~= s@);
    }
    if i >= s.len() {
        return None;
    }
    let j = colon_from(&s, i + 1);
    let mut key: Vec<char> = Vec::new();
    let mut k: usize = i + 1;
    while k < j
        invariant
            i + 1 <= k <= j <= s@.len(),
            key@ == s@.subrange(i + 1, k as int),
        decreases j - k,
    {
        key.push(s[k]);
        k = k + 1;
        proof {
            assert(key@ =~= s@.subrange(i + 1, k as int));
        }
    }
    proof {
        let rest = s@.skip(i + 1);
        assert(rest.take(j - (i + 1)) =~= s@.subrange(i + 1, j as int));
    }
    Some(key)
}

/// A synced registry of song keys; a key's index is the one that clients
/// know it by.
pub struct SongRegistry {
    keys: Vec<Vec<char>>,
}

impl SongRegistry {
    pub closed spec fn view(&self) -> Seq<Seq<char>> {
        self.keys@.map_values(|k: Vec<char>| k@)
    }

    /// Keys are distinct, and every index fits an `i32` payload.
    pub open spec fn wf(&self) -> bool {
        &&& self.view().len() <= i32::MAX
        &&& forall|i: int, j: int|
            0 <= i < j < self.view().len() ==> self.view()[i] != self.view()[j]
    }

    pub fn new(names: &Vec<String>) -> (r: SongRegistry)
        requires
            names@.len() <= i32::MAX,
            forall|i: int, j: int| 0 <= i < j < names@.len() ==> names@[i]@ != names@[j]@,
        ensures
            r.wf(),
            r.view() == names@.map_values(|n: String| n@),
    {
        let mut keys: Vec<Vec<char>> = Vec::new();
        let mut i: usize = 0;
        while i < names.len()
            invariant
                i <= names@.len(),
                keys@.len() == i,
                forall|k: int| 0 <= k < i ==> keys@[k]@ == names@[k]@,
            decreases names@.len() - i,
        {
            keys.push(chars_of(names[i].as_str()));
            i = i + 1;
        }
        let r = SongRegistry { keys };
        assert(r.view() =~= names@.map_values(|n: String| n@));
        r
    }

    /// Index of `key`, the first where it occurs.
    pub fn get_index_of(&self, key: &Vec<char>) -> (r: Option<usize>)
        ensures
            match r {
                Some(i) => index_of(self.view(), key@) == Some(i as int),
                None => index_of(self.view(), key@) is None,
            },
    {
        let ghost v = self.view();
        let mut i: usize = 0;
        while i < self.keys.len()
            invariant
                v == self.view(),
                i <= v.len(),
                forall|k: int| 0 <= k < i ==> v[k] != key@,
            decreases v.len() - i,
        {
            if same_chars(&self.keys[i], key) {
                proof {
                    assert(v[i as int] == key@);
                    let c = choose|c: int| 0 <= c < v.len() && v[c] == key@ && forall|j: int| 0 <= j < c ==> v[j] != key@;
                    if c < i {
                    }
                    if c > i {
                        assert(v[i as int] != key@);
                    }
                }
                return Some(i);
            }
            i = i + 1;
        }
        None
    }
}

} // verus!

verus! {

/// What a hook tells the caller: `Consume` suppresses the default handling,
/// `Continue` lets it proceed.
#[derive(Clone, Copy, Debug, PartialEq, Eq, Structural)]
pub enum BlockActionResult {
    Consume,
    Continue,
}

/// What a use-with-item interaction did.
#[derive(Clone, Copy, Debug, PartialEq, Eq, Structural)]
pub enum JukeboxUse {
    /// The record was on: it is now off, and a stop was emitted.
    Stopped,
    /// The song at this registry index started.
    Started(usize),
    /// The held item links no media, or its id has no key segment.
    NoSong,
    /// The media key is not in the registry: worth an error log.
    UnregisteredSong,
}

impl JukeboxUse {
    /// `Consume` where the interaction changed the block, `Continue` otherwise.
    pub fn result(&self) -> (r: BlockActionResult)
        ensures
            r == result_of(*self),
    {
        match self {
            JukeboxUse::Stopped => BlockActionResult::Consume,
            JukeboxUse::Started(_) => BlockActionResult::Consume,
            JukeboxUse::NoSong => BlockActionResult::Continue,
            JukeboxUse::UnregisteredSong => BlockActionResult::Continue,
        }
    }
}

pub open spec fn result_of(u: JukeboxUse) -> BlockActionResult {
    match u {
        JukeboxUse::Stopped | JukeboxUse::Started(_) => BlockActionResult::Consume,
        _ => BlockActionResult::Continue,
    }
}

pub open spec fn media_view(media: Option<&str>) -> Option<Seq<char>> {
    match media {
        Some(m) => Some(m@),
        None => None,
    }
}

/// The decision of a use-with-item interaction, from the toggle, the held
/// item's media id and the registry's keys.
pub open spec fn use_outcome(
    has_record: bool,
    media: Option<Seq<char>>,
    songs: Seq<Seq<char>>,
) -> JukeboxUse {
    if has_record {
        JukeboxUse::Stopped
    } else {
        match media {
            None => JukeboxUse::NoSong,
            Some(m) => match song_key(m) {
                None => JukeboxUse::NoSong,
                Some(k) => match index_of(songs, k) {
                    None => JukeboxUse::UnregisteredSong,
                    Some(i) => JukeboxUse::Started(i as usize),
                },
            },
        }
    }
}

/// The toggle after an interaction.
pub open spec fn toggle_after(has_record: bool, u: JukeboxUse) -> bool {
    match u {
        JukeboxUse::Stopped => false,
        JukeboxUse::Started(_) => true,
        _ => has_record,
    }
}

/// The write that sets the toggle at `pos` to `has_record`, with no propagation.
pub open spec fn toggle_write(block: Block, pos: BlockPos, has_record: bool) -> BlockWrite {
    BlockWrite {
        pos,
        state_id: encode(JukeboxLikeProperties { has_record }, block) as u16,
        flags: BlockFlags { notify_neighbors: false, notify_listeners: false },
    }
}

/// The world after `stop_music` at `pos`.
pub open spec fn stopped_in(w0: World, w1: World, block: Block, pos: BlockPos) -> bool {
    &&& w1.wf()
    &&& w1.spec_state(pos) == encode(JukeboxLikeProperties { has_record: false }, block)
    &&& forall|p: BlockPos| p != pos ==> w1.spec_state(p) == w0.spec_state(p)
    &&& w1.spec_writes() == w0.spec_writes().push(toggle_write(block, pos, false))
    &&& w1.spec_effects() == w0.spec_effects().push(
        WorldEffect { kind: WorldEvent::JukeboxStopsPlaying, pos, payload: 0 },
    )
}

/// What a use-with-item interaction `u` at `pos` did to the world `w0`,
/// giving `w1`.
pub open spec fn used_with_item(
    w0: World,
    w1: World,
    block: Block,
    pos: BlockPos,
    media: Option<Seq<char>>,
    songs: Seq<Seq<char>>,
    u: JukeboxUse,
) -> bool {
    &&& u == use_outcome(decode(w0.spec_state(pos) as int, block).has_record, media, songs)
    &&& w1.wf()
    &&& decode(w1.spec_state(pos) as int, block).has_record == toggle_after(
        decode(w0.spec_state(pos) as int, block).has_record,
        u,
    )
    &&& u is Stopped ==> stopped_in(w0, w1, block, pos)
    &&& u matches JukeboxUse::Started(i) ==> {
        &&& w1.spec_state(pos) == encode(JukeboxLikeProperties { has_record: true }, block)
        &&& forall|p: BlockPos| p != pos ==> w1.spec_state(p) == w0.spec_state(p)
        &&& w1.spec_writes() == w0.spec_writes().push(toggle_write(block, pos, true))
        &&& w1.spec_effects() == w0.spec_effects().push(
            WorldEffect { kind: WorldEvent::JukeboxStartsPlaying, pos, payload: i as i32 },
        )
    }
    &&& (u is NoSong || u is UnregisteredSong) ==> w1 == w0
}

/// A record-player block: a toggle that starts a song from the held item and
/// stops it on the next use.
#[derive(Clone, Copy, Debug, PartialEq, Eq, Structural)]
pub struct JukeboxBlock;

impl JukeboxBlock {
    /// Whether the block at `location` holds a record.
    pub fn has_record(&self, block: &Block, location: &BlockPos, world: &World) -> (r: bool)
        requires
            world.wf(),
        ensures
            r == decode(world.spec_state(*location) as int, *block).has_record,
    {
        let state_id = world.get_block_state(location);
        JukeboxLikeProperties::from_state_id(state_id, block).has_record
    }

    /// Writes the toggle at `location`, with no propagation.
    pub fn set_record(&self, has_record: bool, block: &Block, location: &BlockPos, world: &mut World)
        requires
            old(world).wf(),
            block.wf(),
        ensures
            final(world).wf(),
            final(world).spec_state(*location) == encode(
                JukeboxLikeProperties { has_record },
                *block,
            ),
            forall|p: BlockPos| p != *location ==> final(world).spec_state(p) == old(world).spec_state(p),
            final(world).spec_effects() == old(world).spec_effects(),
            final(world).spec_writes() == old(world).spec_writes().push(
                toggle_write(*block, *location, has_record),
            ),
    {
        let new_state = JukeboxLikeProperties { has_record };
        world.set_block_state(location, new_state.to_state_id(block), BlockFlags::empty());
    }

    fn stop_music(&self, block: &Block, position: &BlockPos, world: &mut World)
        requires
            old(world).wf(),
            block.wf(),
        ensures
            stopped_in(*old(world), *final(world), *block, *position),
    {
        self.set_record(false, block, position, world);
        world.sync_world_event(WorldEvent::JukeboxStopsPlaying, *position, 0);
    }

    /// Plain use: stops the music at `location` where it plays, and does
    /// nothing otherwise; never turns it on.
    pub fn normal_use(&self, block: &Block, location: &BlockPos, world: &mut World) -> (r:
        BlockActionResult)
        requires
            old(world).wf(),
            block.wf(),
        ensures
            decode(old(world).spec_state(*location) as int, *block).has_record ==> stopped_in(
                *old(world),
                *final(world),
                *block,
                *location,
            ) && r == BlockActionResult::Consume,
            !decode(old(world).spec_state(*location) as int, *block).has_record ==> *final(world)
                == *old(world) && r == BlockActionResult::Continue,
    {
        if self.has_record(block, location, world) {
            self.stop_music(block, location, world);
            BlockActionResult::Consume
        } else {
            BlockActionResult::Continue
        }
    }

    /// Use with a held item whose linked media id is `media`: stops a playing
    /// record, or starts the song that the media id names in `songs`.
    /// Holding `&mut World` is the exclusive section from the read of the
    /// toggle to the write of the new state.
    pub fn use_with_item(
        &self,
        block: &Block,
        location: &BlockPos,
        world: &mut World,
        media: Option<&str>,
        songs: &SongRegistry,
    ) -> (r: JukeboxUse)
        requires
            old(world).wf(),
            block.wf(),
            songs.wf(),
        ensures
            used_with_item(*old(world), *final(world), *block, *location, media_view(media), songs.view(), r),
    {
        if self.has_record(block, location, world) {
            self.stop_music(block, location, world);
            return JukeboxUse::Stopped;
        }
        let m = match media {
            Some(m) => m,
            None => return JukeboxUse::NoSong,
        };
        let song = match media_song_key(m) {
            Some(k) => k,
            None => return JukeboxUse::NoSong,
        };
        let index = match songs.get_index_of(&song) {
            Some(i) => i,
            None => return JukeboxUse::UnregisteredSong,
        };
        self.set_record(true, block, location, world);
        world.sync_world_event(WorldEvent::JukeboxStartsPlaying, *location, index as i32);
        JukeboxUse::Started(index)
    }

    /// The block was broken: a stop is emitted whatever the toggle was.
    pub fn broken(&self, location: &BlockPos, world: &mut World)
        requires
            old(world).wf(),
        ensures
            final(world).wf(),
            forall|p: BlockPos| final(world).spec_state(p) == old(world).spec_state(p),
            final(world).spec_effects() == old(world).spec_effects().push(
                WorldEffect { kind: WorldEvent::JukeboxStopsPlaying, pos: *location, payload: 0 },
            ),
            final(world).spec_writes() == old(world).spec_writes(),
    {
        world.sync_world_event(WorldEvent::JukeboxStopsPlaying, *location, 0);
    }
}

} // verus!

verus! {

/// How many of a run of use-with-item interactions, one after another from
/// toggle `has_record`, start a song.
pub open spec fn count_starts(has_record: bool, medias: Seq<Option<Seq<char>>>, songs: Seq<Seq<char>>) -> nat
    decreases medias.len(),
{
    if medias.len() == 0 {
        0
    } else {
        let u = use_outcome(has_record, medias[0], songs);
        (if u is Started { 1nat } else { 0nat }) + count_starts(
            toggle_after(has_record, u),
            medias.drop_first(),
            songs,
        )
    }
}

/// How many of the same run stop the song.
pub open spec fn count_stops(has_record: bool, medias: Seq<Option<Seq<char>>>, songs: Seq<Seq<char>>) -> nat
    decreases medias.len(),
{
    if medias.len() == 0 {
        0
    } else {
        let u = use_outcome(has_record, medias[0], songs);
        (if u is Stopped { 1nat } else { 0nat }) + count_stops(
            toggle_after(has_record, u),
            medias.drop_first(),
            songs,
        )
    }
}

/// The toggle at the end of the run.
pub open spec fn final_toggle(has_record: bool, medias: Seq<Option<Seq<char>>>, songs: Seq<Seq<char>>) -> bool
    decreases medias.len(),
{
    if medias.len() == 0 {
        has_record
    } else {
        let u = use_outcome(has_record, medias[0], songs);
        final_toggle(toggle_after(has_record, u), medias.drop_first(), songs)
    }
}

/// Interactions on one position, serialized by the exclusive section, never
/// start twice without a stop between: over any run, starts and stops differ
/// by the change of the toggle, so a run has at most one start more than it
/// has stops.
pub proof fn lemma_no_double_start(
    has_record: bool,
    medias: Seq<Option<Seq<char>>>,
    songs: Seq<Seq<char>>,
)
    ensures
        count_starts(has_record, medias, songs) + (if has_record { 1int } else { 0int })
            == count_stops(has_record, medias, songs) + (if final_toggle(has_record, medias, songs) { 1int } else { 0int }),
        count_starts(has_record, medias, songs) <= count_stops(has_record, medias, songs) + 1,
    decreases medias.len(),
{
    if medias.len() > 0 {
        let u = use_outcome(has_record, medias[0], songs);
        lemma_no_double_start(toggle_after(has_record, u), medias.drop_first(), songs);
    }
}

/// Two interactions in a row on one position never both start a song.
pub proof fn lemma_no_two_starts_in_a_row(
    has_record: bool,
    first: Option<Seq<char>>,
    second: Option<Seq<char>>,
    songs: Seq<Seq<char>>,
)
    ensures
        use_outcome(has_record, first, songs) is Started ==> use_outcome(
            toggle_after(has_record, use_outcome(has_record, first, songs)),
            second,
            songs,
        ) is Stopped,
{
}

} // verus!

verus! {

/// How many of `us` started a song.
pub open spec fn started_count(us: Seq<JukeboxUse>) -> nat
    decreases us.len(),
{
    if us.len() == 0 {
        0
    } else {
        (if us[0] is Started { 1nat } else { 0nat }) + started_count(us.drop_first())
    }
}

/// How many of `us` stopped the song.
pub open spec fn stopped_count(us: Seq<JukeboxUse>) -> nat
    decreases us.len(),
{
    if us.len() == 0 {
        0
    } else {
        (if us[0] is Stopped { 1nat } else { 0nat }) + stopped_count(us.drop_first())
    }
}

/// Any number of use-with-item calls on one position, each holding the
/// world exclusively, so that each starts from the world that the previous
/// one left (`ws[k]` before call `k`, `ws[k + 1]` after it): from a stopped
/// block, they start a song at most once more than they stop it, and the
/// difference is the final toggle.
pub proof fn lemma_serialized_uses(
    ws: Seq<World>,
    block: Block,
    pos: BlockPos,
    medias: Seq<Option<Seq<char>>>,
    songs: Seq<Seq<char>>,
    us: Seq<JukeboxUse>,
)
    requires
        ws.len() == us.len() + 1,
        medias.len() == us.len(),
        forall|k: int|
            0 <= k < us.len() ==> used_with_item(ws[k], ws[k + 1], block, pos, medias[k], songs, #[trigger] us[k]),
    ensures
        started_count(us) + (if decode(ws[0].spec_state(pos) as int, block).has_record { 1int } else { 0int })
            == stopped_count(us) + (if decode(ws[us.len() as int].spec_state(pos) as int, block).has_record { 1int } else { 0int }),
        !decode(ws[0].spec_state(pos) as int, block).has_record ==> started_count(us) <= stopped_count(us) + 1,
    decreases us.len(),
{
    if us.len() > 0 {
        assert(used_with_item(ws[0], ws[1], block, pos, medias[0], songs, us[0]));
        let ws1 = ws.drop_first();
        let ms1 = medias.drop_first();
        let us1 = us.drop_first();
        assert forall|k: int| 0 <= k < us1.len() implies used_with_item(ws1[k], ws1[k + 1], block, pos, ms1[k], songs, #[trigger] us1[k]) by {
            assert(us1[k] == us[k + 1]);
        }
        lemma_serialized_uses(ws1, block, pos, ms1, songs, us1);
    }
}

/// Reading the toggle back after writing it gives the written value.
pub proof fn lemma_toggle_round_trip(world: World, block: Block, pos: BlockPos, has_record: bool)
    requires
        block.wf(),
        world.spec_state(pos) == encode(JukeboxLikeProperties { has_record }, block),
    ensures
        decode(world.spec_state(pos) as int, block).has_record == has_record,
{
}

} // verus!
