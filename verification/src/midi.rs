//! MIDI input: decoding of channel messages, and the bindings of controller
//! keys and knobs to the tool's buttons and sliders.
use vstd::prelude::*;
use std::collections::HashMap;

verus! {

/// The number of buttons and of sliders.
pub const MIDI_N: usize = 32;

/// A decoded MIDI channel message.
#[derive(Debug, Clone, Copy, PartialEq, Eq)]
pub enum MessageKind {
    NoteOn { channel: u8, key: u8, velocity: u8 },
    NoteOff { channel: u8, key: u8, _velocity: u8 },
    KeyPressure { channel: u8, key: u8, pressure: u8 },
    ControlChange { channel: u8, key: u8, value: u8 },
}

/// The message that three bytes encode: the high nibble of the status byte
/// gives the kind, the low nibble the channel.
pub open spec fn message_spec(message: [u8; 3]) -> Option<MessageKind> {
    let status = message@[0];
    let channel = (status % 16) as u8;
    let key = message@[1];
    let data = message@[2];
    let kind = status / 16;
    if kind == 8 {
        Some(MessageKind::NoteOff { channel, key, _velocity: data })
    } else if kind == 9 {
        Some(MessageKind::NoteOn { channel, key, velocity: data })
    } else if kind == 10 {
        Some(MessageKind::KeyPressure { channel, key, pressure: data })
    } else if kind == 11 {
        Some(MessageKind::ControlChange { channel, key, value: data })
    } else {
        None
    }
}

/// Decodes a three-byte MIDI message.
pub fn parse_msg(message: [u8; 3]) -> (r: Option<MessageKind>)
    ensures
        r == message_spec(message),
{
    let status = message[0];
    let data0 = message[1];
    let data1 = message[2];
    let kind_bits = 0xF0u8 & status;
    let channel = status & 0x0Fu8;
    assert(kind_bits == (status / 16) * 16) by (bit_vector)
        requires
            kind_bits == 0xF0u8 & status,
    ;
    assert(channel == status % 16) by (bit_vector)
        requires
            channel == status & 0x0Fu8,
    ;
    if kind_bits == 0x80 {
        Some(MessageKind::NoteOff { channel, key: data0, _velocity: data1 })
    } else if kind_bits == 0x90 {
        Some(MessageKind::NoteOn { channel, key: data0, velocity: data1 })
    } else if kind_bits == 0xA0 {
        Some(MessageKind::KeyPressure { channel, key: data0, pressure: data1 })
    } else if kind_bits == 0xB0 {
        Some(MessageKind::ControlChange { channel, key: data0, value: data1 })
    } else {
        None
    }
}

/// The number of controller keys: 256 channels (only 16 occur) times 256
/// key numbers.
pub const KEY_COUNT: usize = 65536;

/// The position of a controller key in the binding table.
pub open spec fn key_index(k: [u8; 2]) -> int {
    k@[0] * 256 + k@[1]
}

proof fn lemma_key_index_injective(k1: [u8; 2], k2: [u8; 2])
    requires
        key_index(k1) == key_index(k2),
    ensures
        k1 == k2,
{
    let a = k1@[0] as int;
    let b = k1@[1] as int;
    let c = k2@[0] as int;
    let d = k2@[1] as int;
    assert(a == c && b == d) by (nonlinear_arith)
        requires
            a * 256 + b == c * 256 + d,
            0 <= b < 256,
            0 <= d < 256,
    ;
    assert(k1@ =~= k2@);
    vstd::array::lemma_array_index(k1, 0);
    assert(k1 == k2);
}

/// The bindings of controller keys (channel and key number) to button or
/// slider numbers.
#[derive(Debug, Clone)]
pub struct Bindings {
    table: Vec<Option<u8>>,
}

impl View for Bindings {
    type V = Map<[u8; 2], usize>;

    /// The bindings as a map from key to number.
    closed spec fn view(&self) -> Map<[u8; 2], usize> {
        Map::new(
            |k: [u8; 2]| self.table@[key_index(k)] is Some,
            |k: [u8; 2]| self.table@[key_index(k)]->Some_0 as usize,
        )
    }
}

impl Bindings {

    /// Every number bound is below [`MIDI_N`].
    pub closed spec fn wf(&self) -> bool {
        &&& self.table@.len() == KEY_COUNT
        &&& forall|i: int|
            0 <= i < KEY_COUNT ==> (#[trigger] self.table@[i] matches Some(id) ==> id < MIDI_N)
    }

    /// The numbers bound are below [`MIDI_N`].
    pub proof fn lemma_wf_ids(&self)
        requires
            self.wf(),
        ensures
            forall|k: [u8; 2]| #[trigger] self.view().contains_key(k) ==> self.view()[k] < MIDI_N,
    {
        assert forall|k: [u8; 2]| #[trigger] self.view().contains_key(k) implies self.view()[k]
            < MIDI_N by {
            assert(0 <= key_index(k) < KEY_COUNT);
        }
    }

    /// No bindings.
    pub fn new() -> (r: Self)
        ensures
            r.wf(),
            r.view() == Map::<[u8; 2], usize>::empty(),
    {
        let mut table: Vec<Option<u8>> = Vec::new();
        let mut i: usize = 0;
        while i < KEY_COUNT
            invariant
                i <= KEY_COUNT,
                table@.len() == i,
                forall|j: int| 0 <= j < i ==> #[trigger] table@[j] is None,
            decreases KEY_COUNT - i,
        {
            table.push(None);
            i = i + 1;
        }
        let r = Bindings { table };
        assert(r.view() =~= Map::<[u8; 2], usize>::empty()) by {
            assert forall|k: [u8; 2]| !r.view().contains_key(k) by {
                assert(0 <= key_index(k) < KEY_COUNT);
            }
        }
        r
    }

    /// The number bound to `key`.
    pub fn get(&self, key: [u8; 2]) -> (r: Option<usize>)
        requires
            self.wf(),
        ensures
            r == (if self.view().contains_key(key) {
                Some(self.view()[key])
            } else {
                None
            }),
    {
        let idx = key[0] as usize * 256 + key[1] as usize;
        match self.table[idx] {
            Some(id) => Some(id as usize),
            None => None,
        }
    }

    /// Removes every binding to `id`.
    pub fn unbind(&mut self, id: usize)
        requires
            old(self).wf(),
        ensures
            final(self).wf(),
            final(self).view() == old(self).view().restrict(
                old(self).view().dom().filter(|k: [u8; 2]| old(self).view()[k] != id),
            ),
    {
        let ghost old_table = self.table@;
        let mut i: usize = 0;
        while i < KEY_COUNT
            invariant
                i <= KEY_COUNT,
                self.table@.len() == KEY_COUNT,
                old_table.len() == KEY_COUNT,
                forall|j: int|
                    0 <= j < KEY_COUNT ==> (#[trigger] old_table[j] matches Some(x) ==> x < MIDI_N),
                forall|j: int|
                    0 <= j < i ==> #[trigger] self.table@[j] == (match old_table[j] {
                        Some(x) => if x as usize == id {
                            None
                        } else {
                            Some(x)
                        },
                        None => None,
                    }),
                forall|j: int| i <= j < KEY_COUNT ==> #[trigger] self.table@[j] == old_table[j],
            decreases KEY_COUNT - i,
        {
            match self.table[i] {
                Some(x) => {
                    if x as usize == id {
                        self.table.set(i, None);
                    }
                },
                None => {},
            }
            i = i + 1;
        }
        proof {
            let o = Map::new(
                |k: [u8; 2]| old_table[key_index(k)] is Some,
                |k: [u8; 2]| old_table[key_index(k)]->Some_0 as usize,
            );
            assert forall|k: [u8; 2]| true implies 0 <= #[trigger] key_index(k) < KEY_COUNT by {}
            assert(self.view() =~= o.restrict(o.dom().filter(|k: [u8; 2]| o[k] != id)));
        }
    }

    /// Binds `key` to `id`, replacing the key's previous binding.
    pub fn insert(&mut self, key: [u8; 2], id: usize)
        requires
            old(self).wf(),
            id < MIDI_N,
        ensures
            final(self).wf(),
            final(self).view() == old(self).view().insert(key, id),
    {
        let ghost old_table = self.table@;
        let idx = key[0] as usize * 256 + key[1] as usize;
        self.table.set(idx, Some(id as u8));
        proof {
            let o = Map::new(
                |k: [u8; 2]| old_table[key_index(k)] is Some,
                |k: [u8; 2]| old_table[key_index(k)]->Some_0 as usize,
            );
            assert forall|k: [u8; 2]| true implies 0 <= #[trigger] key_index(k) < KEY_COUNT by {}
            assert forall|k: [u8; 2]| #[trigger] key_index(k) == key_index(key) implies k == key by {
                lemma_key_index_injective(k, key);
            }
            assert(self.table@[key_index(key)] == Some(id as u8));
            assert(self.view() =~= o.insert(key, id));
        }
    }

    /// The bindings, by increasing key.
    pub fn entries(&self) -> (r: Vec<([u8; 2], usize)>)
        requires
            self.wf(),
        ensures
            forall|j: int|
                0 <= j < r@.len() ==> self.view().contains_key(#[trigger] r@[j].0)
                    && self.view()[r@[j].0] == r@[j].1,
            forall|k: [u8; 2]| #[trigger] self.view().contains_key(k) ==> exists|j: int|
                0 <= j < r@.len() && r@[j].0 == k,
            forall|i: int, j: int| 0 <= i < j < r@.len() ==> key_index(r@[i].0) < key_index(r@[j].0),
    {
        let mut out: Vec<([u8; 2], usize)> = Vec::new();
        let mut i: usize = 0;
        while i < KEY_COUNT
            invariant
                self.wf(),
                i <= KEY_COUNT,
                forall|j: int|
                    0 <= j < out@.len() ==> self.view().contains_key(#[trigger] out@[j].0)
                        && self.view()[out@[j].0] == out@[j].1 && key_index(out@[j].0) < i,
                forall|k: [u8; 2]|
                    #[trigger] self.view().contains_key(k) && key_index(k) < i ==> exists|j: int|
                        0 <= j < out@.len() && out@[j].0 == k,
                forall|a: int, b: int|
                    0 <= a < b < out@.len() ==> key_index(out@[a].0) < key_index(out@[b].0),
            decreases KEY_COUNT - i,
        {
            match self.table[i] {
                Some(x) => {
                    let k: [u8; 2] = [(i / 256) as u8, (i % 256) as u8];
                    assert(key_index(k) == i);
                    let ghost before = out@;
                    out.push((k, x as usize));
                    proof {
                        assert forall|k2: [u8; 2]|
                            #[trigger] self.view().contains_key(k2) && key_index(k2) < i + 1 implies exists|j: int|
                            0 <= j < out@.len() && out@[j].0 == k2 by {
                            if key_index(k2) == i {
                                assert(k2@ =~= k@);
                                assert(out@[out@.len() - 1].0 == k2);
                            } else {
                                let j = choose|j: int| 0 <= j < before.len() && before[j].0 == k2;
                                assert(out@[j].0 == k2);
                            }
                        }
                    }
                },
                None => {
                    proof {
                        assert forall|k2: [u8; 2]|
                            #[trigger] self.view().contains_key(k2) && key_index(k2) < i + 1 implies exists|j: int|
                            0 <= j < out@.len() && out@[j].0 == k2 by {
                            assert(key_index(k2) != i);
                        }
                    }
                },
            }
            i = i + 1;
        }
        proof {
            assert forall|k: [u8; 2]| true implies #[trigger] key_index(k) < KEY_COUNT by {}
        }
        out
    }
}

/// What a decoded message asks of the buttons and sliders.
#[derive(Debug, Clone, Copy, PartialEq, Eq)]
pub enum MidiEffect {
    /// Nothing (an unknown message, or an unbound key).
    Nothing,
    /// The button is pressed with the given velocity: its value becomes
    /// `velocity / 127`, its press time now, and its press count grows by one.
    ButtonOn { id: usize, velocity: u8 },
    /// The button is released: its value becomes zero and its release time now.
    ButtonOff { id: usize },
    /// The button's value becomes `pressure / 127`.
    ButtonPressure { id: usize, pressure: u8 },
    /// The slider's value becomes `value / 127`.
    Slider { id: usize, value: u8 },
}

/// The state of the MIDI bindings: the bindings, and the keys last seen,
/// which a new binding binds.
#[derive(Debug, Clone)]
pub struct MidiBindings {
    pub last_button: [u8; 2],
    pub last_slider: [u8; 2],
    pub button_bindings: Bindings,
    pub slider_bindings: Bindings,
}

/// The effect of a message on button `bound` (if the key is bound).
pub open spec fn button_effect(kind: MessageKind, bound: Option<usize>) -> MidiEffect {
    match bound {
        None => MidiEffect::Nothing,
        Some(id) => match kind {
            MessageKind::NoteOn { velocity, .. } => MidiEffect::ButtonOn { id, velocity },
            MessageKind::NoteOff { .. } => MidiEffect::ButtonOff { id },
            MessageKind::KeyPressure { pressure, .. } => MidiEffect::ButtonPressure { id, pressure },
            MessageKind::ControlChange { value, .. } => MidiEffect::Slider { id, value },
        },
    }
}

/// The bindings without any binding to `id`.
pub open spec fn unbound(m: Map<[u8; 2], usize>, id: usize) -> Map<[u8; 2], usize> {
    m.restrict(m.dom().filter(|k: [u8; 2]| m[k] != id))
}

/// The bindings after binding `key` to `id`: every other binding to `id`
/// removed, and `key` bound to `id` in place of its previous binding.
pub open spec fn rebind(m: Map<[u8; 2], usize>, key: [u8; 2], id: usize) -> Map<[u8; 2], usize> {
    unbound(m, id).insert(key, id)
}

/// No number is bound to two keys.
pub open spec fn one_key_per_number(m: Map<[u8; 2], usize>) -> bool {
    forall|k1: [u8; 2], k2: [u8; 2]|
        m.contains_key(k1) && m.contains_key(k2) && #[trigger] m[k1] == #[trigger] m[k2] ==> k1 == k2
}

/// The number bound to `key` in `m`, if any.
pub open spec fn bound(m: Map<[u8; 2], usize>, key: [u8; 2]) -> Option<usize> {
    if m.contains_key(key) {
        Some(m[key])
    } else {
        None
    }
}

impl MidiBindings {
    pub open spec fn wf(&self) -> bool {
        self.button_bindings.wf() && self.slider_bindings.wf()
    }

    /// No bindings, and no key seen yet.
    pub fn new() -> (r: Self)
        ensures
            r.wf(),
            r.last_button == [0u8, 0u8],
            r.last_slider == [0u8, 0u8],
            r.button_bindings.view() == Map::<[u8; 2], usize>::empty(),
            r.slider_bindings.view() == Map::<[u8; 2], usize>::empty(),
    {
        MidiBindings {
            last_button: [0, 0],
            last_slider: [0, 0],
            button_bindings: Bindings::new(),
            slider_bindings: Bindings::new(),
        }
    }

    /// Handles a three-byte message: notes and key pressure set the last
    /// button key and act on the button bound to it; control changes set the
    /// last slider key and act on the slider bound to it.
    pub fn handle_message(&mut self, message: [u8; 3]) -> (r: MidiEffect)
        requires
            old(self).wf(),
        ensures
            final(self).wf(),
            final(self).button_bindings == old(self).button_bindings,
            final(self).slider_bindings == old(self).slider_bindings,
            match message_spec(message) {
                None => r == MidiEffect::Nothing && *final(self) == *old(self),
                Some(kind) => match kind {
                    MessageKind::ControlChange { channel, key, .. } => final(self).last_slider
                        == [channel, key] && final(self).last_button == old(self).last_button
                        && r == button_effect(
                        kind,
                        bound(old(self).slider_bindings.view(), [channel, key]),
                    ),
                    MessageKind::NoteOn { channel, key, .. } | MessageKind::NoteOff {
                        channel,
                        key,
                        ..
                    } | MessageKind::KeyPressure { channel, key, .. } => final(self).last_button
                        == [channel, key] && final(self).last_slider == old(self).last_slider
                        && r == button_effect(
                        kind,
                        bound(old(self).button_bindings.view(), [channel, key]),
                    ),
                },
            },
            match r {
                MidiEffect::ButtonOn { id, .. } => id < MIDI_N,
                MidiEffect::ButtonOff { id } => id < MIDI_N,
                MidiEffect::ButtonPressure { id, .. } => id < MIDI_N,
                MidiEffect::Slider { id, .. } => id < MIDI_N,
                MidiEffect::Nothing => true,
            },
    {
        proof {
            self.button_bindings.lemma_wf_ids();
            self.slider_bindings.lemma_wf_ids();
        }
        match parse_msg(message) {
            None => MidiEffect::Nothing,
            Some(kind) => match kind {
                MessageKind::NoteOn { channel, key, velocity } => {
                    self.last_button = [channel, key];
                    match self.button_bindings.get([channel, key]) {
                        Some(id) => MidiEffect::ButtonOn { id, velocity },
                        None => MidiEffect::Nothing,
                    }
                },
                MessageKind::NoteOff { channel, key, .. } => {
                    self.last_button = [channel, key];
                    match self.button_bindings.get([channel, key]) {
                        Some(id) => MidiEffect::ButtonOff { id },
                        None => MidiEffect::Nothing,
                    }
                },
                MessageKind::KeyPressure { channel, key, pressure } => {
                    self.last_button = [channel, key];
                    match self.button_bindings.get([channel, key]) {
                        Some(id) => MidiEffect::ButtonPressure { id, pressure },
                        None => MidiEffect::Nothing,
                    }
                },
                MessageKind::ControlChange { channel, key, value } => {
                    self.last_slider = [channel, key];
                    match self.slider_bindings.get([channel, key]) {
                        Some(id) => MidiEffect::Slider { id, value },
                        None => MidiEffect::Nothing,
                    }
                },
            },
        }
    }

    /// Binds the last slider key seen to slider `id`, which no other key
    /// stays bound to; returns whether the bindings changed (and should be
    /// saved).
    pub fn bind_slider(&mut self, id: usize) -> (changed: bool)
        requires
            old(self).wf(),
        ensures
            final(self).wf(),
            changed == (id < MIDI_N),
            final(self).last_button == old(self).last_button,
            final(self).last_slider == old(self).last_slider,
            final(self).button_bindings == old(self).button_bindings,
            !changed ==> final(self).slider_bindings == old(self).slider_bindings,
            changed ==> final(self).slider_bindings.view() == rebind(
                old(self).slider_bindings.view(),
                old(self).last_slider,
                id,
            ),
    {
        if id < MIDI_N {
            self.slider_bindings.unbind(id);
            self.slider_bindings.insert(self.last_slider, id);
            true
        } else {
            false
        }
    }

    /// Binds the last button key seen to button `id`, which no other key
    /// stays bound to; returns whether the bindings changed (and should be
    /// saved).
    pub fn bind_button(&mut self, id: usize) -> (changed: bool)
        requires
            old(self).wf(),
        ensures
            final(self).wf(),
            changed == (id < MIDI_N),
            final(self).last_button == old(self).last_button,
            final(self).last_slider == old(self).last_slider,
            final(self).slider_bindings == old(self).slider_bindings,
            !changed ==> final(self).button_bindings == old(self).button_bindings,
            changed ==> final(self).button_bindings.view() == rebind(
                old(self).button_bindings.view(),
                old(self).last_button,
                id,
            ),
    {
        if id < MIDI_N {
            self.button_bindings.unbind(id);
            self.button_bindings.insert(self.last_button, id);
            true
        } else {
            false
        }
    }

    /// Removes every binding to slider `id`; returns whether the bindings
    /// changed (and should be saved).
    pub fn unbind_slider(&mut self, id: usize) -> (changed: bool)
        requires
            old(self).wf(),
        ensures
            final(self).wf(),
            changed == (id < MIDI_N),
            final(self).last_button == old(self).last_button,
            final(self).last_slider == old(self).last_slider,
            final(self).button_bindings == old(self).button_bindings,
            !changed ==> final(self).slider_bindings == old(self).slider_bindings,
            changed ==> final(self).slider_bindings.view() == unbound(old(self).slider_bindings.view(), id),
    {
        if id < MIDI_N {
            self.slider_bindings.unbind(id);
            true
        } else {
            false
        }
    }

    /// Removes every binding to button `id`; returns whether the bindings
    /// changed (and should be saved).
    pub fn unbind_button(&mut self, id: usize) -> (changed: bool)
        requires
            old(self).wf(),
        ensures
            final(self).wf(),
            changed == (id < MIDI_N),
            final(self).last_button == old(self).last_button,
            final(self).last_slider == old(self).last_slider,
            final(self).slider_bindings == old(self).slider_bindings,
            !changed ==> final(self).button_bindings == old(self).button_bindings,
            changed ==> final(self).button_bindings.view() == unbound(old(self).button_bindings.view(), id),
    {
        if id < MIDI_N {
            self.button_bindings.unbind(id);
            true
        } else {
            false
        }
    }
}

} // verus!

verus! {

/// The three bytes of a raw MIDI message; messages of any other length are
/// ignored.
pub fn message_from_bytes(bytes: &[u8]) -> (r: Option<[u8; 3]>)
    ensures
        bytes@.len() == 3 ==> (r matches Some(m) && m@ == bytes@),
        bytes@.len() != 3 ==> r is None,
{
    if bytes.len() != 3 {
        return None;
    }
    let m = [bytes[0], bytes[1], bytes[2]];
    assert(m@ =~= bytes@);
    Some(m)
}

/// Whether a port of the given name is one to connect to: every port when
/// no devices are preferred, else those whose name contains the name of a
/// preferred device.
pub open spec fn port_selected_spec(name: Seq<char>, preferred: Seq<Seq<char>>) -> bool {
    preferred.len() == 0 || exists|i: int| 0 <= i < preferred.len() && crate::text::contains_seq(name, preferred[i])
}

/// Whether to connect to the MIDI port named `name`, given the names of the
/// preferred devices.
pub fn port_selected(name: &str, preferred: &[String]) -> (r: bool)
    ensures
        r == port_selected_spec(name@, crate::text::string_views(preferred@)),
{
    if preferred.len() == 0 {
        return true;
    }
    let n = crate::text::chars_of(name);
    let mut i: usize = 0;
    while i < preferred.len()
        invariant
            i <= preferred@.len(),
            n@ == name@,
            forall|j: int| 0 <= j < i ==> !crate::text::contains_seq(name@, preferred@[j]@),
        decreases preferred@.len() - i,
    {
        let p = crate::text::chars_of(preferred[i].as_str());
        if crate::text::contains_chars(n.as_slice(), p.as_slice()) {
            assert(crate::text::string_views(preferred@)[i as int] == preferred@[i as int]@);
            return true;
        }
        i = i + 1;
    }
    proof {
        let v = crate::text::string_views(preferred@);
        if exists|j: int| 0 <= j < v.len() && crate::text::contains_seq(name@, v[j]) {
            let j = choose|j: int| 0 <= j < v.len() && crate::text::contains_seq(name@, v[j]);
            assert(v[j] == preferred@[j]@);
        }
    }
    false
}

/// Whether to connect anew: the number of MIDI ports has changed.
pub fn ports_changed(port_count: usize, connected_count: usize) -> (r: bool)
    ensures
        r == (port_count != connected_count),
{
    port_count != connected_count
}

/// After binding `key` to `id`, the key is bound to `id` and no other key
/// is; every key bound to another number keeps its binding; and if no
/// number was bound to two keys before, none is after.
pub proof fn lemma_rebind(m: Map<[u8; 2], usize>, key: [u8; 2], id: usize)
    ensures
        bound(rebind(m, key, id), key) == Some(id),
        forall|k: [u8; 2]|
            k != key && #[trigger] rebind(m, key, id).contains_key(k) ==> rebind(m, key, id)[k] != id,
        forall|k: [u8; 2]|
            k != key && m.contains_key(k) && m[k] != id ==> #[trigger] bound(rebind(m, key, id), k)
                == bound(m, k),
        one_key_per_number(m) ==> one_key_per_number(rebind(m, key, id)),
{
    let r = rebind(m, key, id);
    if one_key_per_number(m) {
        assert forall|k1: [u8; 2], k2: [u8; 2]|
            r.contains_key(k1) && r.contains_key(k2) && #[trigger] r[k1] == #[trigger] r[k2] implies k1
            == k2 by {
            if k1 != key && k2 != key {
                assert(m[k1] == m[k2]);
            }
        }
    }
}

/// After unbinding `id`, no key is bound to it, and every key bound to
/// another number keeps its binding; if no number was bound to two keys
/// before, none is after.
pub proof fn lemma_unbound(m: Map<[u8; 2], usize>, id: usize)
    ensures
        forall|k: [u8; 2]| #[trigger] unbound(m, id).contains_key(k) ==> unbound(m, id)[k] != id,
        forall|k: [u8; 2]|
            m.contains_key(k) && m[k] != id ==> #[trigger] bound(unbound(m, id), k) == bound(m, k),
        one_key_per_number(m) ==> one_key_per_number(unbound(m, id)),
{
}

} // verus!

verus! {

/// The map that a list of (key, number) pairs sets, later pairs winning.
pub open spec fn pairs_map(s: Seq<([u8; 2], usize)>) -> Map<[u8; 2], usize>
    decreases s.len(),
{
    if s.len() == 0 {
        Map::empty()
    } else {
        pairs_map(s.drop_last()).insert(s.last().0, s.last().1)
    }
}

/// No key occurs twice in the list.
pub open spec fn keys_distinct(s: Seq<([u8; 2], usize)>) -> bool {
    forall|i: int, j: int| 0 <= i < j < s.len() ==> s[i].0 != s[j].0
}

/// Every number of the map is below [`MIDI_N`].
pub open spec fn numbers_in_range(m: Map<[u8; 2], usize>) -> bool {
    forall|k: [u8; 2]| #[trigger] m.contains_key(k) ==> m[k] < MIDI_N
}

/// The keys of the map set by a list are the keys of its pairs, and with no
/// key twice each key goes to the number paired with it.
pub proof fn lemma_pairs_map(s: Seq<([u8; 2], usize)>)
    requires
        keys_distinct(s),
    ensures
        forall|k: [u8; 2]| #[trigger] pairs_map(s).contains_key(k) <==> exists|i: int|
            0 <= i < s.len() && s[i].0 == k,
        forall|i: int| 0 <= i < s.len() ==> #[trigger] pairs_map(s)[s[i].0] == s[i].1,
    decreases s.len(),
{
    if s.len() > 0 {
        let t = s.drop_last();
        assert(keys_distinct(t));
        lemma_pairs_map(t);
        assert forall|k: [u8; 2]| #[trigger] pairs_map(s).contains_key(k) <==> exists|i: int|
            0 <= i < s.len() && s[i].0 == k by {
            if pairs_map(t).contains_key(k) {
                let i = choose|i: int| 0 <= i < t.len() && t[i].0 == k;
                assert(s[i].0 == k);
            }
            if exists|i: int| 0 <= i < s.len() && s[i].0 == k {
                let i = choose|i: int| 0 <= i < s.len() && s[i].0 == k;
                if i < s.len() - 1 {
                    assert(t[i].0 == k);
                }
            }
        }
        assert forall|i: int| 0 <= i < s.len() implies #[trigger] pairs_map(s)[s[i].0] == s[i].1 by {
            if i < s.len() - 1 {
                assert(t[i] == s[i]);
                assert(s[i].0 != s.last().0);
                assert(pairs_map(t)[t[i].0] == t[i].1);
            }
        }
    }
}

/// The two maps of button and slider bindings that the text of a bindings
/// file holds, if it holds them.
pub uninterp spec fn bindings_document(text: Seq<char>) -> Option<
    (Map<[u8; 2], usize>, Map<[u8; 2], usize>),
>;

/// `serde_yaml::from_str` into a pair of `HashMap<[u8; 2], usize>` (button
/// bindings, slider bindings), each handed out as its list of entries. The
/// contract claims that the maps are a function of the text, and says
/// nothing of the order of the entries (the hash map's walk order), only
/// that no key occurs twice.
#[verifier::external_body]
fn parse_bindings(text: &str) -> (r: Option<(Vec<([u8; 2], usize)>, Vec<([u8; 2], usize)>)>)
    ensures
        r is None <==> bindings_document(text@) is None,
        r matches Some((b, s)) ==> bindings_document(text@) matches Some((mb, ms)) && pairs_map(b@)
            == mb && pairs_map(s@) == ms && keys_distinct(b@) && keys_distinct(s@),
{
    match serde_yaml::from_str::<(HashMap<[u8; 2], usize>, HashMap<[u8; 2], usize>)>(text) {
        Ok((b, s)) => Some((b.into_iter().collect(), s.into_iter().collect())),
        Err(_) => None,
    }
}

/// Binds every pair of the list, all numbers being below [`MIDI_N`].
fn bind_all(bindings: &mut Bindings, pairs: &Vec<([u8; 2], usize)>)
    requires
        old(bindings).wf(),
        old(bindings).view() == Map::<[u8; 2], usize>::empty(),
        forall|i: int| 0 <= i < pairs@.len() ==> #[trigger] pairs@[i].1 < MIDI_N,
    ensures
        final(bindings).wf(),
        final(bindings).view() == pairs_map(pairs@),
{
    let mut i: usize = 0;
    while i < pairs.len()
        invariant
            i <= pairs@.len(),
            bindings.wf(),
            bindings.view() == pairs_map(pairs@.take(i as int)),
            forall|j: int| 0 <= j < pairs@.len() ==> #[trigger] pairs@[j].1 < MIDI_N,
        decreases pairs@.len() - i,
    {
        let (key, id) = pairs[i];
        bindings.insert(key, id);
        assert(pairs@.take(i as int + 1).drop_last() == pairs@.take(i as int));
        i = i + 1;
    }
    assert(pairs@.take(pairs@.len() as int) == pairs@);
}

/// Whether every number of the list is below [`MIDI_N`].
fn all_in_range(pairs: &Vec<([u8; 2], usize)>) -> (r: bool)
    ensures
        r <==> forall|i: int| 0 <= i < pairs@.len() ==> #[trigger] pairs@[i].1 < MIDI_N,
{
    let mut i: usize = 0;
    while i < pairs.len()
        invariant
            i <= pairs@.len(),
            forall|j: int| 0 <= j < i ==> #[trigger] pairs@[j].1 < MIDI_N,
        decreases pairs@.len() - i,
    {
        if pairs[i].1 >= MIDI_N {
            return false;
        }
        i = i + 1;
    }
    true
}

impl MidiBindings {
    /// The bindings saved in the text of a bindings file, with no key seen
    /// yet; none when the text holds no bindings or binds a number beyond
    /// the buttons and sliders.
    pub fn load_text(text: &str) -> (r: Option<MidiBindings>)
        ensures
            match bindings_document(text@) {
                None => r is None,
                Some((b, s)) => if numbers_in_range(b) && numbers_in_range(s) {
                    r matches Some(m) && m.wf() && m.last_button == [0u8, 0u8] && m.last_slider
                        == [0u8, 0u8] && m.button_bindings.view() == b
                        && m.slider_bindings.view() == s
                } else {
                    r is None
                },
            },
    {
        let (b, s) = match parse_bindings(text) {
            None => return None,
            Some(p) => p,
        };
        proof {
            lemma_pairs_map(b@);
            lemma_pairs_map(s@);
        }
        if !all_in_range(&b) {
            proof {
                let i = choose|i: int| 0 <= i < b@.len() && !(b@[i].1 < MIDI_N);
                assert(pairs_map(b@).contains_key(b@[i].0));
            }
            return None;
        }
        if !all_in_range(&s) {
            proof {
                let i = choose|i: int| 0 <= i < s@.len() && !(s@[i].1 < MIDI_N);
                assert(pairs_map(s@).contains_key(s@[i].0));
            }
            return None;
        }
        let mut m = MidiBindings::new();
        bind_all(&mut m.button_bindings, &b);
        bind_all(&mut m.slider_bindings, &s);
        proof {
            assert forall|k: [u8; 2]| #[trigger] pairs_map(b@).contains_key(k) implies pairs_map(
                b@,
            )[k] < MIDI_N by {
                let i = choose|i: int| 0 <= i < b@.len() && b@[i].0 == k;
                assert(b@[i].1 < MIDI_N);
            }
            assert forall|k: [u8; 2]| #[trigger] pairs_map(s@).contains_key(k) implies pairs_map(
                s@,
            )[k] < MIDI_N by {
                let i = choose|i: int| 0 <= i < s@.len() && s@[i].0 == k;
                assert(s@[i].1 < MIDI_N);
            }
        }
        Some(m)
    }
}

} // verus!
