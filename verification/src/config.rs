//! The project-level configuration (`config.yaml`): preferred MIDI devices
//! and the audio input device.
use vstd::prelude::*;
use crate::yaml::{LoadError, Yaml, yaml_document};
use crate::text::string_views;

verus! {

/// Why a configuration was refused.
#[derive(Debug, Clone, Copy, PartialEq, Eq)]
pub enum ConfigError {
    /// `midi_devices` is not a list.
    MidiDevicesNotList,
    /// An element of `midi_devices` is not a string.
    MidiDeviceNotString,
    /// `audio_device` is not a string.
    AudioDeviceNotString,
    /// `ndi_sources` is not a list.
    NdiSourcesNotList,
    /// An element of `ndi_sources` is not a string.
    NdiSourceNotString,
}

/// How reading a list of strings failed.
pub enum ListFault {
    NotList,
    ItemNotString,
}

/// The strings of `xs` from the `i`-th on, appended to `acc`, or `None` if one
/// of them is not a string.
pub open spec fn strings_from(xs: Seq<Yaml>, i: int, acc: Seq<Seq<char>>) -> Option<Seq<Seq<char>>>
    decreases xs.len() - i,
{
    if i < 0 || i >= xs.len() {
        Some(acc)
    } else {
        match xs[i].string_of() {
            Some(s) => strings_from(xs, i + 1, acc.push(s)),
            None => None,
        }
    }
}

/// An optional field that must be a list of strings (absent: empty).
pub open spec fn string_list(field: Option<Yaml>) -> Result<Seq<Seq<char>>, ListFault> {
    match field {
        None => Ok(seq![]),
        Some(Yaml::Sequence(xs)) => match strings_from(xs@, 0, seq![]) {
            Some(l) => Ok(l),
            None => Err(ListFault::ItemNotString),
        },
        Some(_) => Err(ListFault::NotList),
    }
}

/// An optional field that must be a string.
pub open spec fn optional_string(field: Option<Yaml>) -> Result<Option<Seq<char>>, ()> {
    match field {
        None => Ok(None),
        Some(Yaml::String(s)) => Ok(Some(s@)),
        Some(_) => Err(()),
    }
}

pub open spec fn option_view(o: Option<String>) -> Option<Seq<char>> {
    match o {
        Some(s) => Some(s@),
        None => None,
    }
}

pub open spec fn deref_field(field: Option<&Yaml>) -> Option<Yaml> {
    match field {
        Some(y) => Some(*y),
        None => None,
    }
}

fn string_list_exec(field: Option<&Yaml>) -> (r: Result<Vec<String>, ListFault>)
    ensures
        r matches Ok(v) ==> string_list(deref_field(field)) == Ok::<Seq<Seq<char>>, ListFault>(
            string_views(v@),
        ),
        r matches Err(e) ==> string_list(deref_field(field)) == Err::<Seq<Seq<char>>, ListFault>(e),
{
    match field {
        None => {
            let v: Vec<String> = Vec::new();
            assert(string_views(v@) =~= seq![]);
            Ok(v)
        },
        Some(Yaml::Sequence(xs)) => {
            let mut out: Vec<String> = Vec::new();
            let mut i: usize = 0;
            assert(string_views(out@) =~= seq![]);
            assert(deref_field(field) == Some(Yaml::Sequence(*xs)));
            while i < xs.len()
                invariant
                    deref_field(field) == Some(Yaml::Sequence(*xs)),
                    i <= xs@.len(),
                    strings_from(xs@, 0, seq![]) == strings_from(xs@, i as int, string_views(out@)),
                decreases xs@.len() - i,
            {
                match xs[i].as_str() {
                    Some(s) => {
                        let ghost before = out@;
                        out.push(s.to_owned());
                        assert(string_views(out@) =~= string_views(before).push(s@));
                    },
                    None => {
                        assert(strings_from(xs@, i as int, string_views(out@)) is None);
                        return Err(ListFault::ItemNotString);
                    },
                }
                i = i + 1;
            }
            Ok(out)
        },
        Some(_) => Err(ListFault::NotList),
    }
}

fn optional_string_exec(field: Option<&Yaml>) -> (r: Result<Option<String>, ()>)
    ensures
        r matches Ok(o) ==> optional_string(match field {
            Some(y) => Some(*y),
            None => None,
        }) == Ok::<Option<Seq<char>>, ()>(option_view(o)),
        r is Err ==> optional_string(match field {
            Some(y) => Some(*y),
            None => None,
        }) is Err,
{
    match field {
        None => Ok(None),
        Some(Yaml::String(s)) => Ok(Some(s.clone())),
        Some(_) => Err(()),
    }
}

/// The configuration of the tool.
#[derive(Debug, Clone)]
pub struct Config {
    pub midi_devices: Vec<String>,
    pub audio_device: Option<String>,
}

/// What a configuration document holds: the MIDI device names and the audio
/// device name, or the first error, reading `midi_devices`, `audio_device`
/// and then `ndi_sources` (which is checked, and not kept).
pub open spec fn config_spec(o: Yaml) -> Result<(Seq<Seq<char>>, Option<Seq<char>>), ConfigError> {
    match string_list(o.lookup("midi_devices"@)) {
        Err(ListFault::NotList) => Err(ConfigError::MidiDevicesNotList),
        Err(ListFault::ItemNotString) => Err(ConfigError::MidiDeviceNotString),
        Ok(midi) => match optional_string(o.lookup("audio_device"@)) {
            Err(_) => Err(ConfigError::AudioDeviceNotString),
            Ok(audio) => match string_list(o.lookup("ndi_sources"@)) {
                Err(ListFault::NotList) => Err(ConfigError::NdiSourcesNotList),
                Err(ListFault::ItemNotString) => Err(ConfigError::NdiSourceNotString),
                Ok(_) => Ok((midi, audio)),
            },
        },
    }
}

/// What a document holds for the older global configuration: the same as
/// [`config_spec`] without `ndi_sources`.
pub open spec fn global_config_spec(o: Yaml) -> Result<
    (Seq<Seq<char>>, Option<Seq<char>>),
    ConfigError,
> {
    match string_list(o.lookup("midi_devices"@)) {
        Err(ListFault::NotList) => Err(ConfigError::MidiDevicesNotList),
        Err(ListFault::ItemNotString) => Err(ConfigError::MidiDeviceNotString),
        Ok(midi) => match optional_string(o.lookup("audio_device"@)) {
            Err(_) => Err(ConfigError::AudioDeviceNotString),
            Ok(audio) => Ok((midi, audio)),
        },
    }
}

impl Default for Config {
    fn default() -> (r: Self)
        ensures
            r.midi_devices@.len() == 0,
            r.audio_device is None,
    {
        Config { midi_devices: Vec::new(), audio_device: None }
    }
}

impl Config {
    /// Reads the configuration document.
    pub fn load(object: &Yaml) -> (r: Result<Self, ConfigError>)
        ensures
            match config_spec(*object) {
                Ok((midi, audio)) => r matches Ok(c) && string_views(c.midi_devices@) == midi
                    && option_view(c.audio_device) == audio,
                Err(e) => r matches Err(e2) && e2 == e,
            },
    {
        let midi_devices = match string_list_exec(object.get("midi_devices")) {
            Ok(v) => v,
            Err(ListFault::NotList) => {
                return Err(ConfigError::MidiDevicesNotList);
            },
            Err(ListFault::ItemNotString) => {
                return Err(ConfigError::MidiDeviceNotString);
            },
        };
        let audio_device = match optional_string_exec(object.get("audio_device")) {
            Ok(o) => o,
            Err(_) => {
                return Err(ConfigError::AudioDeviceNotString);
            },
        };
        match string_list_exec(object.get("ndi_sources")) {
            Ok(_) => {},
            Err(ListFault::NotList) => {
                return Err(ConfigError::NdiSourcesNotList);
            },
            Err(ListFault::ItemNotString) => {
                return Err(ConfigError::NdiSourceNotString);
            },
        }
        Ok(Config { midi_devices, audio_device })
    }

    /// The configuration read from the document, or the default one when
    /// there is no document (it could not be read) or it is refused.
    pub fn load_or_default(object: Option<&Yaml>) -> (r: Self)
        ensures
            match object {
                Some(o) => match config_spec(*o) {
                    Ok((midi, audio)) => string_views(r.midi_devices@) == midi && option_view(
                        r.audio_device,
                    ) == audio,
                    Err(_) => r.midi_devices@.len() == 0 && r.audio_device is None,
                },
                None => r.midi_devices@.len() == 0 && r.audio_device is None,
            },
    {
        match object {
            Some(o) => match Self::load(o) {
                Ok(config) => config,
                Err(_) => Config::default(),
            },
            None => Config::default(),
        }
    }
}

/// The configuration of the tool, as its older loader read it.
#[derive(Debug)]
pub struct GlobalConfig {
    pub midi_devices: Vec<String>,
    pub audio_device: Option<String>,
}

impl GlobalConfig {
    /// The configuration read from the document, or an empty one when there
    /// is no document or it is refused.
    pub fn new(object: Option<&Yaml>) -> (r: Self)
        ensures
            match object {
                Some(o) => match global_config_spec(*o) {
                    Ok((midi, audio)) => string_views(r.midi_devices@) == midi && option_view(
                        r.audio_device,
                    ) == audio,
                    Err(_) => r.midi_devices@.len() == 0 && r.audio_device is None,
                },
                None => r.midi_devices@.len() == 0 && r.audio_device is None,
            },
    {
        match object {
            Some(o) => match Self::load_config(o) {
                Ok(x) => x,
                Err(_) => GlobalConfig { midi_devices: Vec::new(), audio_device: None },
            },
            None => GlobalConfig { midi_devices: Vec::new(), audio_device: None },
        }
    }

    /// Reads the configuration document.
    pub fn load_config(object: &Yaml) -> (r: Result<Self, ConfigError>)
        ensures
            match global_config_spec(*object) {
                Ok((midi, audio)) => r matches Ok(c) && string_views(c.midi_devices@) == midi
                    && option_view(c.audio_device) == audio,
                Err(e) => r matches Err(e2) && e2 == e,
            },
    {
        let midi_devices = match string_list_exec(object.get("midi_devices")) {
            Ok(v) => v,
            Err(ListFault::NotList) => {
                return Err(ConfigError::MidiDevicesNotList);
            },
            Err(ListFault::ItemNotString) => {
                return Err(ConfigError::MidiDeviceNotString);
            },
        };
        let audio_device = match optional_string_exec(object.get("audio_device")) {
            Ok(o) => o,
            Err(_) => {
                return Err(ConfigError::AudioDeviceNotString);
            },
        };
        Ok(GlobalConfig { midi_devices, audio_device })
    }
}

impl Config {
    /// Reads the configuration from the text of `config.yaml`.
    pub fn load_text(text: &str) -> (r: Result<Self, LoadError<ConfigError>>)
        ensures
            match yaml_document(text@) {
                Err(m) => r matches Err(LoadError::Syntax(s)) && s@ == m,
                Ok(o) => match config_spec(o) {
                    Ok((midi, audio)) => r matches Ok(c) && string_views(c.midi_devices@) == midi
                        && option_view(c.audio_device) == audio,
                    Err(e) => r matches Err(LoadError::Invalid(e2)) && e2 == e,
                },
            },
    {
        match Yaml::parse(text) {
            Err(m) => Err(LoadError::Syntax(m)),
            Ok(o) => match Self::load(&o) {
                Ok(c) => Ok(c),
                Err(e) => Err(LoadError::Invalid(e)),
            },
        }
    }
}

impl GlobalConfig {
    /// Reads the configuration from the text of the global configuration
    /// file.
    pub fn load_text(text: &str) -> (r: Result<Self, LoadError<ConfigError>>)
        ensures
            match yaml_document(text@) {
                Err(m) => r matches Err(LoadError::Syntax(s)) && s@ == m,
                Ok(o) => match global_config_spec(o) {
                    Ok((midi, audio)) => r matches Ok(c) && string_views(c.midi_devices@) == midi
                        && option_view(c.audio_device) == audio,
                    Err(e) => r matches Err(LoadError::Invalid(e2)) && e2 == e,
                },
            },
    {
        match Yaml::parse(text) {
            Err(m) => Err(LoadError::Syntax(m)),
            Ok(o) => match Self::load_config(&o) {
                Ok(c) => Ok(c),
                Err(e) => Err(LoadError::Invalid(e)),
            },
        }
    }
}

} // verus!
