use vstd::prelude::*;

verus! {

/// Debounce state of one logical key.
#[derive(PartialEq, Eq, Structural, Clone, Copy, Debug)]
pub enum KeyState {
    Inactive,
    Active,
    JustPressed,
    JustReleased,
}

/// The state a key moves to when the host reports it as `held` (or not) on
/// a new frame.
pub open spec fn next_state(s: KeyState, held: bool) -> KeyState {
    if held {
        match s {
            KeyState::Inactive | KeyState::JustReleased => KeyState::JustPressed,
            KeyState::JustPressed | KeyState::Active => KeyState::Active,
        }
    } else {
        match s {
            KeyState::Active | KeyState::JustPressed => KeyState::JustReleased,
            KeyState::JustReleased | KeyState::Inactive => KeyState::Inactive,
        }
    }
}

/// A key counts as pressed while it is held, from the frame of its press on.
pub open spec fn is_down(s: KeyState) -> bool {
    s == KeyState::Active || s == KeyState::JustPressed
}

/// The lowest key at or above `i` that went down on the latest frame.
pub open spec fn first_just_pressed(keys: Seq<KeyState>, i: int) -> Option<u8>
    decreases 16 - i,
{
    if i >= 16 || i < 0 {
        None
    } else if keys[i] == KeyState::JustPressed {
        Some(i as u8)
    } else {
        first_just_pressed(keys, i + 1)
    }
}

/// The state after one frame update.
pub fn next_key_state(s: KeyState, held: bool) -> (r: KeyState)
    ensures
        r == next_state(s, held),
{
    if held {
        match s {
            KeyState::Inactive | KeyState::JustReleased => KeyState::JustPressed,
            KeyState::JustPressed | KeyState::Active => KeyState::Active,
        }
    } else {
        match s {
            KeyState::Active | KeyState::JustPressed => KeyState::JustReleased,
            KeyState::JustReleased | KeyState::Inactive => KeyState::Inactive,
        }
    }
}

/// The sixteen logical keys 0x0..0xF.
pub struct Keypad {
    states: Vec<KeyState>,
}

impl Keypad {
    /// The state of each key, by key value.
    pub closed spec fn view(&self) -> Seq<KeyState> {
        self.states@
    }

    pub open spec fn wf(&self) -> bool {
        self.view().len() == 16
    }

    /// All keys released.
    pub fn new() -> (r: Keypad)
        ensures
            r.wf(),
            forall|k: int| 0 <= k < 16 ==> r.view()[k] == KeyState::Inactive,
    {
        let mut states: Vec<KeyState> = Vec::new();
        let mut i: usize = 0;
        while i < 16
            invariant
                i <= 16,
                states@.len() == i,
                forall|k: int| 0 <= k < i ==> states@[k] == KeyState::Inactive,
            decreases 16 - i,
        {
            states.push(KeyState::Inactive);
            i += 1;
        }
        Keypad { states }
    }

    /// Advances every key by one frame, given which keys are held now.
    pub fn update(&mut self, held: &[bool; 16])
        requires
            old(self).wf(),
        ensures
            final(self).wf(),
            forall|k: int| 0 <= k < 16 ==> final(self).view()[k] == next_state(old(self).view()[k], held@[k]),
    {
        let mut i: usize = 0;
        while i < 16
            invariant
                i <= 16,
                self.view().len() == 16,
                forall|k: int| 0 <= k < i ==> self.view()[k] == next_state(old(self).view()[k], held@[k]),
                forall|k: int| i <= k < 16 ==> self.view()[k] == old(self).view()[k],
            decreases 16 - i,
        {
            let s = next_key_state(self.states[i], held[i]);
            self.states[i] = s;
            i += 1;
        }
    }

    /// The state of key `key`.
    pub fn state(&self, key: u8) -> (r: KeyState)
        requires
            self.wf(),
            key < 16,
        ensures
            r == self.view()[key as int],
    {
        self.states[key as usize]
    }

    /// Whether key `key` is pressed: held, from the frame of its press on.
    pub fn is_pressed(&self, key: u8) -> (r: bool)
        requires
            self.wf(),
            key < 16,
        ensures
            r == is_down(self.view()[key as int]),
    {
        match self.states[key as usize] {
            KeyState::Active | KeyState::JustPressed => true,
            KeyState::Inactive | KeyState::JustReleased => false,
        }
    }

    /// The lowest key that went down on the latest frame, if any did.
    pub fn just_pressed_key(&self) -> (r: Option<u8>)
        requires
            self.wf(),
        ensures
            r == first_just_pressed(self.view(), 0),
            r is None <==> forall|k: int| 0 <= k < 16 ==> self.view()[k] != KeyState::JustPressed,
            r matches Some(k) ==> k < 16 && self.view()[k as int] == KeyState::JustPressed && forall|j: int|
                0 <= j < k ==> self.view()[j] != KeyState::JustPressed,
    {
        let mut i: u8 = 0;
        while i < 16
            invariant
                i <= 16,
                self.wf(),
                forall|j: int| 0 <= j < i ==> self.view()[j] != KeyState::JustPressed,
                first_just_pressed(self.view(), 0) == first_just_pressed(self.view(), i as int),
            decreases 16 - i,
        {
            if self.states[i as usize] == KeyState::JustPressed {
                return Some(i);
            }
            i += 1;
        }
        None
    }
}

} // verus!
