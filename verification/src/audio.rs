use vstd::prelude::*;

use crate::text_eq::str_equal;

verus! {

/// Stable name of one sound asset.
#[derive(Debug, Clone, Copy, PartialEq, Eq, Hash)]
pub struct SoundId(&'static str);

impl View for SoundId {
    type V = Seq<char>;

    closed spec fn view(&self) -> Seq<char> {
        self.0@
    }
}

impl SoundId {
    pub fn new(id: &'static str) -> (sound: Self)
        ensures
            sound@ == id@,
    {
        SoundId(id)
    }

    pub fn as_str(self) -> (id: &'static str)
        ensures
            id@ == self@,
    {
        self.0
    }
}

/// Handle of one looped playback.
#[derive(Debug, Clone, Copy, PartialEq, Eq, Hash, Structural)]
pub struct PlaybackId(u64);

impl View for PlaybackId {
    type V = u64;

    closed spec fn view(&self) -> u64 {
        self.0
    }
}

impl PlaybackId {
    pub fn new(id: u64) -> (playback: Self)
        ensures
            playback@ == id,
    {
        PlaybackId(id)
    }

    pub fn get(self) -> (id: u64)
        ensures
            id == self@,
    {
        self.0
    }
}

/// Mixing bus a sound plays on.
#[derive(Debug, Clone, Copy, PartialEq, Eq, Hash, Structural)]
pub enum AudioBus {
    Music,
    Sfx,
    Ui,
}

/// Why an audio operation failed.
#[derive(Debug, PartialEq, Eq)]
pub struct AudioError {
    message: String,
}

impl View for AudioError {
    type V = Seq<char>;

    closed spec fn view(&self) -> Seq<char> {
        self.message@
    }
}

impl Clone for AudioError {
    fn clone(&self) -> (copy: Self)
        ensures
            copy@ == self@,
    {
        AudioError { message: self.message.clone() }
    }
}

impl AudioError {
    pub fn new(message: &str) -> (error: Self)
        ensures
            error@ == message@,
    {
        AudioError { message: String::from_str(message) }
    }

    pub fn from_string(message: String) -> (error: Self)
        ensures
            error@ == message@,
    {
        AudioError { message }
    }

    /// The human-readable description of the failure.
    pub fn message(&self) -> (message: &str)
        ensures
            message@ == self@,
    {
        self.message.as_str()
    }
}

/// `"sound '<id>'"` followed by `rest`.
pub open spec fn sound_message(id: Seq<char>, rest: Seq<char>) -> Seq<char> {
    "sound '"@ + id + "' "@ + rest
}

pub(crate) fn sound_error(id: SoundId, rest: &str) -> (error: AudioError)
    ensures
        error@ == sound_message(id@, rest@),
{
    let mut message = String::from_str("sound '");
    message.append(id.as_str());
    message.append("' ");
    message.append(rest);
    AudioError::from_string(message)
}

/// The WAV assets a game ships, by sound name, and which of them an audio backend
/// has been given.
#[derive(Debug)]
pub struct SoundBank {
    assets: Vec<(SoundId, Vec<u8>)>,
    registered: Vec<SoundId>,
}

/// Abstract contents of a sound bank: its assets in insertion order and the names of
/// the registered ones.
pub struct SoundBankView {
    pub assets: Seq<(Seq<char>, Seq<u8>)>,
    pub registered: Seq<Seq<char>>,
}

impl SoundBankView {
    /// Whether an asset is stored under `id`.
    pub open spec fn contains(self, id: Seq<char>) -> bool {
        exists|i: int| 0 <= i < self.assets.len() && (#[trigger] self.assets[i]).0 == id
    }

    /// The bytes stored under `id`.
    pub open spec fn bytes(self, id: Seq<char>) -> Seq<u8> {
        self.assets[choose|i: int| 0 <= i < self.assets.len() && (#[trigger] self.assets[i]).0 == id].1
    }

    /// Whether `id` has been registered with an audio backend.
    pub open spec fn is_registered(self, id: Seq<char>) -> bool {
        self.registered.contains(id)
    }

    /// No name is stored twice.
    pub open spec fn unique(self) -> bool {
        forall|i: int, j: int|
            0 <= i < j < self.assets.len() ==> (#[trigger] self.assets[i]).0 != (
            #[trigger] self.assets[j]).0
    }
}

impl View for SoundBank {
    type V = SoundBankView;

    closed spec fn view(&self) -> SoundBankView {
        SoundBankView {
            assets: self.assets@.map_values(|entry: (SoundId, Vec<u8>)| (entry.0@, entry.1@)),
            registered: self.registered@.map_values(|id: SoundId| id@),
        }
    }
}

impl SoundBank {
    #[verifier::type_invariant]
    spec fn inv(self) -> bool {
        forall|i: int, j: int|
            0 <= i < j < self.assets@.len() ==> (#[trigger] self.assets@[i]).0@ != (
            #[trigger] self.assets@[j]).0@
    }

    proof fn lemma_unique(&self)
        requires
            self.inv(),
        ensures
            self@.unique(),
    {
        assert forall|i: int, j: int| 0 <= i < j < self@.assets.len() implies (
        #[trigger] self@.assets[i]).0 != (#[trigger] self@.assets[j]).0 by {
            assert(self@.assets[i].0 == self.assets@[i].0@);
            assert(self@.assets[j].0 == self.assets@[j].0@);
        }
    }

    pub fn new() -> (bank: Self)
        ensures
            bank@.assets.len() == 0,
            bank@.registered.len() == 0,
    {
        let bank = SoundBank { assets: Vec::new(), registered: Vec::new() };
        assert(bank@.assets =~= Seq::<(Seq<char>, Seq<u8>)>::empty());
        assert(bank@.registered =~= Seq::<Seq<char>>::empty());
        bank
    }

    fn find(&self, id: SoundId) -> (index: Option<usize>)
        ensures
            match index {
                Some(i) => i < self@.assets.len() && self@.assets[i as int].0 == id@,
                None => !self@.contains(id@),
            },
    {
        let mut i: usize = 0;
        while i < self.assets.len()
            invariant
                i <= self.assets@.len(),
                forall|j: int| 0 <= j < i ==> (#[trigger] self@.assets[j]).0 != id@,
            decreases self.assets@.len() - i,
        {
            assert(self@.assets[i as int].0 == self.assets@[i as int].0@);
            if str_equal(self.assets[i].0.as_str(), id.as_str()) {
                return Some(i);
            }
            i = i + 1;
        }
        None
    }

    /// Stores a WAV asset under `id`; a name that is already stored is refused and the
    /// bank is left unchanged.
    pub fn insert_wav(&mut self, id: SoundId, bytes: Vec<u8>) -> (result: Result<(), AudioError>)
        ensures
            result is Ok <==> !old(self)@.contains(id@),
            result is Ok ==> final(self)@.assets == old(self)@.assets.push((id@, bytes@)),
            result is Ok ==> final(self)@.registered == old(self)@.registered,
            result matches Err(e) ==> e@ == sound_message(id@, "is already present in the bank"@)
                && final(self)@ == old(self)@,
    {
        proof {
            use_type_invariant(&*self);
            self.lemma_unique();
        }
        if self.find(id).is_some() {
            return Err(sound_error(id, "is already present in the bank"));
        }
        let ghost old_view = self@;
        let ghost grown = old_view.assets.push((id@, bytes@));
        assert forall|i: int, j: int| 0 <= i < j < grown.len() implies (#[trigger] grown[i]).0 != (
        #[trigger] grown[j]).0 by {
            if j < grown.len() - 1 {
                assert(old_view.assets[i] == grown[i]);
                assert(old_view.assets[j] == grown[j]);
            } else {
                assert(old_view.assets[i] == grown[i]);
            }
        }
        let mut assets: Vec<(SoundId, Vec<u8>)> = Vec::new();
        std::mem::swap(&mut assets, &mut self.assets);
        assets.push((id, bytes));
        assert(assets@.map_values(|entry: (SoundId, Vec<u8>)| (entry.0@, entry.1@)) =~= grown);
        assert forall|i: int, j: int| 0 <= i < j < assets@.len() implies (#[trigger] assets@[i]).0@
            != (#[trigger] assets@[j]).0@ by {
            assert(grown[i].0 == assets@[i].0@);
            assert(grown[j].0 == assets@[j].0@);
        }
        self.assets = assets;
        assert(self@.assets =~= grown);
        assert(self@.registered =~= old_view.registered);
        Ok(())
    }

    /// Whether an asset is stored under `id`.
    pub fn contains(&self, id: SoundId) -> (found: bool)
        ensures
            found == self@.contains(id@),
    {
        self.find(id).is_some()
    }

    /// The names of the stored assets, in insertion order.
    pub fn ids(&self) -> (ids: Vec<SoundId>)
        ensures
            ids@.map_values(|id: SoundId| id@) == self@.assets.map_values(
                |entry: (Seq<char>, Seq<u8>)| entry.0,
            ),
    {
        let mut ids: Vec<SoundId> = Vec::new();
        let mut i: usize = 0;
        while i < self.assets.len()
            invariant
                i <= self.assets@.len(),
                ids@.len() == i,
                forall|j: int| 0 <= j < i ==> (#[trigger] ids@[j])@ == self.assets@[j].0@,
            decreases self.assets@.len() - i,
        {
            ids.push(self.assets[i].0);
            i = i + 1;
        }
        assert(ids@.map_values(|id: SoundId| id@) =~= self@.assets.map_values(
            |entry: (Seq<char>, Seq<u8>)| entry.0,
        ));
        ids
    }

    /// What registering `id` with an audio backend still needs: nothing when it is
    /// registered already, its bytes when it is stored but not registered, and an error
    /// naming it when the bank does not hold it.
    pub fn pending_registration(&self, id: SoundId) -> (pending: Result<Option<&[u8]>, AudioError>)
        ensures
            self@.is_registered(id@) ==> pending == Ok::<Option<&[u8]>, AudioError>(None),
            !self@.is_registered(id@) && self@.contains(id@) ==> (pending matches Ok(Some(bytes))
                && bytes@ == self@.bytes(id@)),
            !self@.is_registered(id@) && !self@.contains(id@) ==> (pending matches Err(e) && e@
                == sound_message(id@, "is not present in the bank"@)),
    {
        proof {
            use_type_invariant(self);
            self.lemma_unique();
        }
        let mut i: usize = 0;
        while i < self.registered.len()
            invariant
                i <= self.registered@.len(),
                forall|j: int| 0 <= j < i ==> self.registered@[j]@ != id@,
            decreases self.registered@.len() - i,
        {
            if str_equal(self.registered[i].as_str(), id.as_str()) {
                assert(self@.registered[i as int] == id@);
                return Ok(None);
            }
            i = i + 1;
        }
        assert(!self@.is_registered(id@)) by {
            if self@.registered.contains(id@) {
                let k = choose|k: int| 0 <= k < self@.registered.len() && self@.registered[k] == id@;
                assert(self.registered@[k]@ == id@);
            }
        }
        match self.find(id) {
            Some(index) => {
                let ghost target = self@.assets[index as int];
                assert(self@.assets[index as int] == target);
                let ghost chosen = choose|k: int|
                    0 <= k < self@.assets.len() && (#[trigger] self@.assets[k]).0 == id@;
                assert(chosen == index as int) by {
                    if chosen != index as int {
                        if chosen < index {
                            assert(self@.assets[chosen].0 != self@.assets[index as int].0);
                        } else {
                            assert(self@.assets[index as int].0 != self@.assets[chosen].0);
                        }
                    }
                }
                Ok(Some(self.assets[index].1.as_slice()))
            },
            None => Err(sound_error(id, "is not present in the bank")),
        }
    }

    /// Records that `id` has been registered with the audio backend.
    pub fn mark_registered(&mut self, id: SoundId)
        ensures
            final(self)@.assets == old(self)@.assets,
            final(self)@.registered == old(self)@.registered.push(id@),
    {
        proof {
            use_type_invariant(&*self);
        }
        let ghost old_view = self@;
        let mut registered: Vec<SoundId> = Vec::new();
        std::mem::swap(&mut registered, &mut self.registered);
        registered.push(id);
        self.registered = registered;
        assert(self@.registered =~= old_view.registered.push(id@));
        assert(self@.assets =~= old_view.assets);
    }
}

} // verus!
