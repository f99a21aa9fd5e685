use vstd::prelude::*;

use crate::audio::{sound_error, sound_message, AudioBus, AudioError, PlaybackId, SoundId};
use crate::decimal::{decimal, decimal_string};
use crate::text_eq::str_equal;
use crate::wav_decode::{decode_result_view, decode_wav, decoded_wav, wav_contents, PcmSound, PcmSoundView};

verus! {

/// The sounds an audio backend was given and the loops it is playing, without any
/// output device: what a silent backend keeps track of.
#[derive(Debug)]
pub struct SoundRegistry {
    sounds: Vec<(SoundId, PcmSound)>,
    loops: Vec<(PlaybackId, SoundId, AudioBus)>,
    last_playback: u64,
}

/// Abstract contents of a sound registry: the registered sounds in registration
/// order, the active loops in start order, and the last playback number handed out.
pub struct SoundRegistryView {
    pub sounds: Seq<(Seq<char>, PcmSoundView)>,
    pub loops: Seq<(u64, Seq<char>, AudioBus)>,
    pub last_playback: u64,
}

/// Position of the first sound registered under `id`, from `start` on, or -1.
pub open spec fn sound_position(sounds: Seq<(Seq<char>, PcmSoundView)>, id: Seq<char>, start: int) -> int
    decreases sounds.len() - start,
{
    if start < 0 || start >= sounds.len() {
        -1
    } else if sounds[start].0 == id {
        start
    } else {
        sound_position(sounds, id, start + 1)
    }
}

/// Position of the loop with playback number `playback`, from `start` on, or -1.
pub open spec fn loop_position(loops: Seq<(u64, Seq<char>, AudioBus)>, playback: u64, start: int) -> int
    decreases loops.len() - start,
{
    if start < 0 || start >= loops.len() {
        -1
    } else if loops[start].0 == playback {
        start
    } else {
        loop_position(loops, playback, start + 1)
    }
}

impl SoundRegistryView {
    /// The sound registered under `id`, if any.
    pub open spec fn sound(self, id: Seq<char>) -> Option<PcmSoundView> {
        let position = sound_position(self.sounds, id, 0);
        if position < 0 {
            None
        } else {
            Some(self.sounds[position].1)
        }
    }

    /// The sound and bus of the active loop `playback`, if it is active.
    pub open spec fn active_loop(self, playback: u64) -> Option<(Seq<char>, AudioBus)> {
        let position = loop_position(self.loops, playback, 0);
        if position < 0 {
            None
        } else {
            Some((self.loops[position].1, self.loops[position].2))
        }
    }

    /// Loop numbers are distinct and none is above the last one handed out.
    pub open spec fn loops_consistent(self) -> bool {
        &&& forall|i: int| 0 <= i < self.loops.len() ==> (#[trigger] self.loops[i]).0 <= self.last_playback
        &&& forall|i: int, j: int|
            0 <= i < j < self.loops.len() ==> (#[trigger] self.loops[i]).0 != (#[trigger] self.loops[j]).0
    }
}

/// The message for a sound registered again with other audio data.
pub open spec fn different_sound_message(id: Seq<char>) -> Seq<char> {
    sound_message(id, "is already registered with different audio data"@)
}

/// The message for a loop that is not playing.
pub open spec fn inactive_loop_message(playback: u64) -> Seq<char> {
    "looped playback '"@ + decimal(playback as nat) + "' is not active"@
}

impl View for SoundRegistry {
    type V = SoundRegistryView;

    closed spec fn view(&self) -> SoundRegistryView {
        SoundRegistryView {
            sounds: self.sounds@.map_values(|entry: (SoundId, PcmSound)| (entry.0@, entry.1@)),
            loops: self.loops@.map_values(|entry: (PlaybackId, SoundId, AudioBus)| (entry.0@, entry.1@, entry.2)),
            last_playback: self.last_playback,
        }
    }
}

proof fn lemma_loop_position(loops: Seq<(u64, Seq<char>, AudioBus)>, playback: u64, start: int)
    requires
        0 <= start,
    ensures
        loop_position(loops, playback, start) < 0 ==> forall|i: int|
            start <= i < loops.len() ==> (#[trigger] loops[i]).0 != playback,
        loop_position(loops, playback, start) >= 0 ==> start <= loop_position(loops, playback, start)
            < loops.len() && loops[loop_position(loops, playback, start)].0 == playback,
    decreases loops.len() - start,
{
    if start < loops.len() && loops[start].0 != playback {
        lemma_loop_position(loops, playback, start + 1);
    }
}

proof fn lemma_loop_position_from(loops: Seq<(u64, Seq<char>, AudioBus)>, playback: u64, start: int, k: int)
    requires
        0 <= start <= k < loops.len(),
        loops[k].0 == playback,
        forall|i: int| start <= i < k ==> (#[trigger] loops[i]).0 != playback,
    ensures
        loop_position(loops, playback, start) == k,
    decreases k - start,
{
    if start < k {
        lemma_loop_position_from(loops, playback, start + 1, k);
    }
}

proof fn lemma_sound_position(sounds: Seq<(Seq<char>, PcmSoundView)>, id: Seq<char>, start: int)
    requires
        0 <= start,
    ensures
        sound_position(sounds, id, start) < 0 ==> forall|i: int|
            start <= i < sounds.len() ==> (#[trigger] sounds[i]).0 != id,
        sound_position(sounds, id, start) >= 0 ==> start <= sound_position(sounds, id, start)
            < sounds.len() && sounds[sound_position(sounds, id, start)].0 == id,
    decreases sounds.len() - start,
{
    if start < sounds.len() && sounds[start].0 != id {
        lemma_sound_position(sounds, id, start + 1);
    }
}

proof fn lemma_sound_position_push(sounds: Seq<(Seq<char>, PcmSoundView)>, id: Seq<char>, sound: PcmSoundView, other: Seq<char>, start: int)
    requires
        0 <= start <= sounds.len(),
        forall|i: int| start <= i < sounds.len() ==> (#[trigger] sounds[i]).0 != id,
    ensures
        sound_position(sounds.push((id, sound)), other, start) == if other == id {
            if sound_position(sounds, other, start) >= 0 { sound_position(sounds, other, start) } else { sounds.len() as int }
        } else {
            sound_position(sounds, other, start)
        },
    decreases sounds.len() - start,
{
    if start < sounds.len() {
        assert(sounds.push((id, sound))[start] == sounds[start]);
        lemma_sound_position_push(sounds, id, sound, other, start + 1);
    } else {
        assert(sound_position(sounds.push((id, sound)), other, start + 1) == -1);
    }
}

proof fn lemma_loop_position_push(loops: Seq<(u64, Seq<char>, AudioBus)>, entry: (u64, Seq<char>, AudioBus), playback: u64, start: int)
    requires
        0 <= start <= loops.len(),
    ensures
        loop_position(loops.push(entry), playback, start) == if loop_position(loops, playback, start) >= 0 {
            loop_position(loops, playback, start)
        } else if entry.0 == playback {
            loops.len() as int
        } else {
            -1
        },
    decreases loops.len() - start,
{
    if start < loops.len() {
        assert(loops.push(entry)[start] == loops[start]);
        lemma_loop_position_push(loops, entry, playback, start + 1);
    } else {
        assert(loop_position(loops.push(entry), playback, start + 1) == -1);
    }
}

fn same_samples(a: &Vec<i16>, b: &Vec<i16>) -> (same: bool)
    ensures
        same == (a@ == b@),
{
    if a.len() != b.len() {
        return false;
    }
    let mut i: usize = 0;
    while i < a.len()
        invariant
            a@.len() == b@.len(),
            i <= a@.len(),
            forall|j: int| 0 <= j < i ==> a@[j] == b@[j],
        decreases a@.len() - i,
    {
        if a[i] != b[i] {
            return false;
        }
        i = i + 1;
    }
    assert(a@ =~= b@);
    true
}

/// Whether two decoded sounds hold the same audio.
pub fn same_sound(a: &PcmSound, b: &PcmSound) -> (same: bool)
    ensures
        same == (a@ == b@),
{
    let same = a.channels == b.channels && a.sample_rate == b.sample_rate && same_samples(&a.samples, &b.samples);
    proof {
        if a.channels == b.channels && a.sample_rate == b.sample_rate && a.samples@ == b.samples@ {
            assert(a@ == b@);
        }
    }
    same
}

impl SoundRegistry {
    #[verifier::type_invariant]
    spec fn inv(self) -> bool {
        &&& forall|i: int| 0 <= i < self.loops@.len() ==> (#[trigger] self.loops@[i]).0@ <= self.last_playback
        &&& forall|i: int, j: int|
            0 <= i < j < self.loops@.len() ==> (#[trigger] self.loops@[i]).0@ != (#[trigger] self.loops@[j]).0@
    }

    proof fn lemma_consistent(&self)
        requires
            self.inv(),
        ensures
            self@.loops_consistent(),
    {
        assert forall|i: int, j: int| 0 <= i < j < self@.loops.len() implies (#[trigger] self@.loops[i]).0
            != (#[trigger] self@.loops[j]).0 by {
            assert(self@.loops[i].0 == self.loops@[i].0@);
            assert(self@.loops[j].0 == self.loops@[j].0@);
        }
    }

    /// A registry with no sounds and no loops.
    pub fn new() -> (registry: Self)
        ensures
            registry@.sounds.len() == 0,
            registry@.loops.len() == 0,
            registry@.last_playback == 0,
    {
        let registry = SoundRegistry { sounds: Vec::new(), loops: Vec::new(), last_playback: 0 };
        assert(registry@.sounds =~= Seq::<(Seq<char>, PcmSoundView)>::empty());
        assert(registry@.loops =~= Seq::<(u64, Seq<char>, AudioBus)>::empty());
        registry
    }

    fn find_sound(&self, id: SoundId) -> (position: Option<usize>)
        ensures
            match position {
                Some(p) => p == sound_position(self@.sounds, id@, 0) && p < self@.sounds.len(),
                None => sound_position(self@.sounds, id@, 0) < 0,
            },
    {
        let mut i: usize = 0;
        while i < self.sounds.len()
            invariant
                i <= self.sounds@.len(),
                self@.sounds.len() == self.sounds@.len(),
                sound_position(self@.sounds, id@, 0) == sound_position(self@.sounds, id@, i as int),
            decreases self.sounds@.len() - i,
        {
            assert(self@.sounds[i as int].0 == self.sounds@[i as int].0@);
            if str_equal(self.sounds[i].0.as_str(), id.as_str()) {
                return Some(i);
            }
            i = i + 1;
        }
        None
    }

    fn find_loop(&self, playback: PlaybackId) -> (position: Option<usize>)
        ensures
            match position {
                Some(p) => p == loop_position(self@.loops, playback@, 0) && p < self@.loops.len(),
                None => loop_position(self@.loops, playback@, 0) < 0,
            },
    {
        let mut i: usize = 0;
        while i < self.loops.len()
            invariant
                i <= self.loops@.len(),
                self@.loops.len() == self.loops@.len(),
                loop_position(self@.loops, playback@, 0) == loop_position(self@.loops, playback@, i as int),
            decreases self.loops@.len() - i,
        {
            assert(self@.loops[i as int].0 == self.loops@[i as int].0@);
            if self.loops[i].0.get() == playback.get() {
                return Some(i);
            }
            i = i + 1;
        }
        None
    }

    /// Registers a decoded sound under `id`. Registering the same audio again is a
    /// no-op; other audio under a registered name is refused.
    pub fn register_sound(&mut self, id: SoundId, sound: PcmSound) -> (result: Result<(), AudioError>)
        ensures
            match old(self)@.sound(id@) {
                None => result is Ok && final(self)@.sounds == old(self)@.sounds.push((id@, sound@))
                    && final(self)@.loops == old(self)@.loops
                    && final(self)@.last_playback == old(self)@.last_playback,
                Some(existing) => final(self)@ == old(self)@ && if existing == sound@ {
                    result is Ok
                } else {
                    result matches Err(error) && error@ == different_sound_message(id@)
                },
            },
            final(self)@.sound(id@) == Some(
                match old(self)@.sound(id@) {
                    Some(existing) => existing,
                    None => sound@,
                },
            ),
    {
        proof {
            use_type_invariant(&*self);
        }
        match self.find_sound(id) {
            Some(position) => {
                proof {
                    lemma_sound_position(self@.sounds, id@, 0);
                }
                assert(self@.sounds[position as int].1 == self.sounds@[position as int].1@);
                if same_sound(&self.sounds[position].1, &sound) {
                    Ok(())
                } else {
                    Err(sound_error(id, "is already registered with different audio data"))
                }
            },
            None => {
                proof {
                    lemma_sound_position(self@.sounds, id@, 0);
                    lemma_sound_position_push(self@.sounds, id@, sound@, id@, 0);
                }
                let ghost before = self@;
                let mut sounds = Vec::new();
                std::mem::swap(&mut sounds, &mut self.sounds);
                sounds.push((id, sound));
                self.sounds = sounds;
                assert(self@.sounds =~= before.sounds.push((id@, sound@)));
                assert(self@.loops =~= before.loops);
                Ok(())
            },
        }
    }

    /// Decodes a WAV file and registers it under `id`; a file that does not decode
    /// leaves the registry unchanged.
    pub fn register_wav(&mut self, id: SoundId, bytes: &[u8]) -> (result: Result<(), AudioError>)
        ensures
            match decoded_wav(wav_contents(bytes@)) {
                Err(message) => result matches Err(error) && error@ == message && final(self)@ == old(self)@,
                Ok(sound) => match old(self)@.sound(id@) {
                    None => result is Ok && final(self)@.sounds == old(self)@.sounds.push((id@, sound))
                        && final(self)@.loops == old(self)@.loops
                        && final(self)@.last_playback == old(self)@.last_playback,
                    Some(existing) => final(self)@ == old(self)@ && if existing == sound {
                        result is Ok
                    } else {
                        result matches Err(error) && error@ == different_sound_message(id@)
                    },
                },
            },
    {
        let decoded = decode_wav(bytes);
        assert(decode_result_view(decoded) == decoded_wav(wav_contents(bytes@)));
        match decoded {
            Err(error) => Err(error),
            Ok(sound) => self.register_sound(id, sound),
        }
    }

    /// Whether a sound is registered under `id`.
    pub fn is_registered(&self, id: SoundId) -> (registered: bool)
        ensures
            registered == (self@.sound(id@) is Some),
    {
        self.find_sound(id).is_some()
    }

    /// Plays a registered sound once on the effects bus.
    pub fn play(&mut self, id: SoundId) -> (result: Result<(), AudioError>)
        ensures
            final(self)@ == old(self)@,
            old(self)@.sound(id@) is Some ==> result is Ok,
            old(self)@.sound(id@) is None ==> (result matches Err(error) && error@ == sound_message(
                id@,
                "is not registered"@,
            )),
    {
        self.play_on_bus(id, AudioBus::Sfx)
    }

    /// Plays a registered sound once; a silent backend only checks the name.
    pub fn play_on_bus(&mut self, id: SoundId, bus: AudioBus) -> (result: Result<(), AudioError>)
        ensures
            final(self)@ == old(self)@,
            old(self)@.sound(id@) is Some ==> result is Ok,
            old(self)@.sound(id@) is None ==> (result matches Err(error) && error@ == sound_message(
                id@,
                "is not registered"@,
            )),
    {
        if self.find_sound(id).is_some() {
            Ok(())
        } else {
            Err(sound_error(id, "is not registered"))
        }
    }

    /// Starts looping a registered sound on the effects bus.
    pub fn start_loop(&mut self, id: SoundId) -> (result: Result<PlaybackId, AudioError>)
        requires
            old(self)@.sound(id@) is Some ==> old(self)@.last_playback < u64::MAX,
        ensures
            old(self)@.sound(id@) is None ==> final(self)@ == old(self)@ && (result matches Err(error)
                && error@ == sound_message(id@, "is not registered"@)),
            old(self)@.sound(id@) is Some ==> (result matches Ok(playback) && playback@ == old(self)@.last_playback + 1
                && final(self)@.last_playback == playback@
                && final(self)@.sounds == old(self)@.sounds
                && final(self)@.loops == old(self)@.loops.push((playback@, id@, AudioBus::Sfx))
                && old(self)@.active_loop(playback@) is None
                && final(self)@.active_loop(playback@) == Some((id@, AudioBus::Sfx))),
    {
        self.start_loop_on_bus(id, AudioBus::Sfx)
    }

    /// Starts looping a registered sound on `bus`; the playback number is one above
    /// the last one handed out, so it names no other active loop.
    pub fn start_loop_on_bus(&mut self, id: SoundId, bus: AudioBus) -> (result: Result<PlaybackId, AudioError>)
        requires
            old(self)@.sound(id@) is Some ==> old(self)@.last_playback < u64::MAX,
        ensures
            old(self)@.sound(id@) is None ==> final(self)@ == old(self)@ && (result matches Err(error)
                && error@ == sound_message(id@, "is not registered"@)),
            old(self)@.sound(id@) is Some ==> (result matches Ok(playback) && playback@ == old(self)@.last_playback + 1
                && final(self)@.last_playback == playback@
                && final(self)@.sounds == old(self)@.sounds
                && final(self)@.loops == old(self)@.loops.push((playback@, id@, bus))
                && old(self)@.active_loop(playback@) is None
                && final(self)@.active_loop(playback@) == Some((id@, bus))),
    {
        proof {
            use_type_invariant(&*self);
            self.lemma_consistent();
        }
        if self.find_sound(id).is_none() {
            return Err(sound_error(id, "is not registered"));
        }
        let ghost before = self@;
        let next = self.last_playback + 1;
        let playback = PlaybackId::new(next);
        proof {
            lemma_loop_position(before.loops, next, 0);
            lemma_loop_position_push(before.loops, (next, id@, bus), next, 0);
        }
        let mut loops = Vec::new();
        std::mem::swap(&mut loops, &mut self.loops);
        loops.push((playback, id, bus));
        self.last_playback = next;
        proof {
            assert forall|i: int| 0 <= i < loops@.len() implies (#[trigger] loops@[i]).0@ <= next by {
                if i < before.loops.len() {
                    assert(loops@[i].0@ == before.loops[i].0);
                }
            }
            assert forall|i: int, j: int| 0 <= i < j < loops@.len() implies (#[trigger] loops@[i]).0@
                != (#[trigger] loops@[j]).0@ by {
                assert(loops@[i].0@ == before.loops[i].0);
                if j < before.loops.len() {
                    assert(loops@[j].0@ == before.loops[j].0);
                }
            }
        }
        self.loops = loops;
        assert(self@.loops =~= before.loops.push((next, id@, bus)));
        assert(self@.sounds =~= before.sounds);
        Ok(playback)
    }

    /// Stops an active loop; a loop that is not active is reported.
    pub fn stop_loop(&mut self, playback: PlaybackId) -> (result: Result<(), AudioError>)
        ensures
            old(self)@.active_loop(playback@) is None ==> final(self)@ == old(self)@ && (result matches Err(error)
                && error@ == inactive_loop_message(playback@)),
            old(self)@.active_loop(playback@) is Some ==> result is Ok && final(self)@.loops == old(self)@.loops.remove(
                loop_position(old(self)@.loops, playback@, 0),
            ) && final(self)@.sounds == old(self)@.sounds && final(self)@.last_playback
                == old(self)@.last_playback,
            final(self)@.active_loop(playback@) is None,
    {
        proof {
            use_type_invariant(&*self);
            self.lemma_consistent();
        }
        match self.find_loop(playback) {
            None => {
                let mut message = String::from_str("looped playback '");
                let number = decimal_string(playback.get());
                message.append(number.as_str());
                message.append("' is not active");
                Err(AudioError::from_string(message))
            },
            Some(position) => {
                let ghost before = self@;
                proof {
                    lemma_loop_position(before.loops, playback@, 0);
                }
                let mut loops = Vec::new();
                std::mem::swap(&mut loops, &mut self.loops);
                loops.remove(position);
                let ghost after = loops@.map_values(|entry: (PlaybackId, SoundId, AudioBus)| (entry.0@, entry.1@, entry.2));
                assert(after =~= before.loops.remove(position as int));
                proof {
                    assert forall|i: int| 0 <= i < after.len() implies (#[trigger] after[i]).0 != playback@ by {
                        if i < position {
                            assert(after[i] == before.loops[i]);
                        } else {
                            assert(after[i] == before.loops[i + 1]);
                        }
                    }
                    lemma_loop_position(after, playback@, 0);
                    if loop_position(after, playback@, 0) >= 0 {
                        assert(after[loop_position(after, playback@, 0)].0 == playback@);
                    }
                }
                self.loops = loops;
                assert(self@.sounds =~= before.sounds);
                Ok(())
            },
        }
    }

    /// The last playback number handed out.
    pub fn last_playback(&self) -> (last: u64)
        ensures
            last == self@.last_playback,
    {
        self.last_playback
    }

    /// The sound that the active loop `playback` plays.
    pub fn loop_sound(&self, playback: PlaybackId) -> (sound: Option<SoundId>)
        ensures
            match self@.active_loop(playback@) {
                Some(active) => sound matches Some(id) && id@ == active.0,
                None => sound is None,
            },
    {
        match self.find_loop(playback) {
            Some(position) => Some(self.loops[position].1),
            None => None,
        }
    }

    /// The bus that the active loop `playback` plays on.
    pub fn loop_bus(&self, playback: PlaybackId) -> (bus: Option<AudioBus>)
        ensures
            match self@.active_loop(playback@) {
                Some(active) => bus == Some(active.1),
                None => bus is None,
            },
    {
        match self.find_loop(playback) {
            Some(position) => Some(self.loops[position].2),
            None => None,
        }
    }
}

} // verus!
