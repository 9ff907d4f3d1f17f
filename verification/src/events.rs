//! The decisions of the main loop: what a key press asks for, which files
//! are pipelines, which one to load, and when to rebuild.
use vstd::prelude::*;
use crate::text::{chars_of, matches_at, str_eq};

verus! {

/// The keys that the main loop reacts to.
#[derive(Debug, Clone, Copy, PartialEq, Eq)]
pub enum Key {
    Return,
    S,
    Other,
}

/// A keyboard event and the modifiers held.
#[derive(Debug, Clone, Copy, PartialEq, Eq)]
pub struct KeyInput {
    pub key: Key,
    pub pressed: bool,
    pub shift: bool,
    pub ctrl: bool,
    pub alt: bool,
    pub logo: bool,
}

/// What a keyboard event asks of the main loop.
#[derive(Debug, Clone, Copy, PartialEq, Eq)]
pub struct KeyResponse {
    /// Rebuild the pipeline (Ctrl+Return).
    pub rebuild: bool,
    /// Toggle fullscreen on the main window (Alt+Return there).
    pub toggle_fullscreen: bool,
    /// Save the current frame (Shift+Ctrl+S).
    pub screenshot: bool,
    /// Whether Alt is held.
    pub alt_pressed: bool,
}

/// The milliseconds that must pass after a build before a change of the
/// files triggers the next one.
pub const REBUILD_DELAY_MS: u128 = 300;

/// The response to a keyboard event; `on_main_window` tells whether the
/// event came to the main window.
pub fn key_response(input: KeyInput, on_main_window: bool) -> (r: KeyResponse)
    ensures
        r.rebuild == (input.key == Key::Return && input.pressed && input.ctrl && !(input.shift
            || input.alt || input.logo)),
        r.toggle_fullscreen == (input.key == Key::Return && input.pressed && input.alt && !(
        input.shift || input.ctrl || input.logo) && on_main_window),
        r.screenshot == (input.key == Key::S && input.pressed && input.shift && input.ctrl),
        r.alt_pressed == input.alt,
{
    let is_return = match input.key {
        Key::Return => true,
        _ => false,
    };
    let is_s = match input.key {
        Key::S => true,
        _ => false,
    };
    let mut r = KeyResponse {
        rebuild: false,
        toggle_fullscreen: false,
        screenshot: false,
        alt_pressed: input.alt,
    };
    if is_return && input.pressed {
        if input.ctrl && !(input.shift || input.alt || input.logo) {
            r.rebuild = true;
        }
        if input.alt && !(input.shift || input.ctrl || input.logo) && on_main_window {
            r.toggle_fullscreen = true;
        }
    }
    if is_s && input.pressed {
        if input.shift && input.ctrl {
            r.screenshot = true;
        }
    }
    r
}

/// Whether `s` ends with `p`.
pub open spec fn ends_with(s: Seq<char>, p: Seq<char>) -> bool {
    s.len() >= p.len() && s.subrange(s.len() - p.len(), s.len() as int) == p
}

/// A file of the working directory is a pipeline when its name ends in
/// `.yaml` and it is not the project's `config.yaml`.
pub open spec fn is_pipeline_file_spec(name: Seq<char>) -> bool {
    ends_with(name, ".yaml"@) && name != "config.yaml"@
}

/// Whether the file named `name` is a pipeline.
pub fn is_pipeline_file(name: &str) -> (r: bool)
    ensures
        r == is_pipeline_file_spec(name@),
{
    let s = chars_of(name);
    let p = chars_of(".yaml");
    let ends = if s.len() >= p.len() {
        let r = matches_at(s.as_slice(), p.as_slice(), s.len() - p.len());
        assert(r == (s@.subrange((s@.len() - p@.len()) as int, s@.len() as int) == p@)) by {
            if r {
                assert(s@.subrange((s@.len() - p@.len()) as int, s@.len() as int) =~= p@);
            }
        }
        r
    } else {
        false
    };
    ends && !str_eq(name, "config.yaml")
}

/// The pipelines among the files of the working directory, in the given
/// order.
pub fn pipeline_files(names: Vec<String>) -> (r: Vec<String>)
    ensures
        r@.map_values(|s: String| s@) == names@.map_values(|s: String| s@).filter(
            |n: Seq<char>| is_pipeline_file_spec(n),
        ),
{
    let ghost views = names@.map_values(|s: String| s@);
    let mut r: Vec<String> = Vec::new();
    let mut i: usize = 0;
    while i < names.len()
        invariant
            i <= names@.len(),
            views == names@.map_values(|s: String| s@),
            r@.map_values(|s: String| s@) == views.subrange(0, i as int).filter(
                |n: Seq<char>| is_pipeline_file_spec(n),
            ),
        decreases names@.len() - i,
    {
        let keep = is_pipeline_file(names[i].as_str());
        let ghost before = r@;
        assert(views.subrange(0, i + 1).drop_last() =~= views.subrange(0, i as int));
        assert(views.subrange(0, i + 1).last() == names@[i as int]@);
        proof {
            reveal(Seq::filter);
        }
        if keep {
            r.push(names[i].clone());
            assert(r@.map_values(|s: String| s@) =~= before.map_values(|s: String| s@).push(
                names@[i as int]@,
            ));
        } else {
            assert(r@ == before);
        }
        i = i + 1;
    }
    assert(views.subrange(0, names@.len() as int) =~= views);
    r
}

/// The pipeline to load: the one chosen, unless there are fewer than two
/// to choose from, when it is the first.
pub fn pipeline_index(count: usize, chosen: usize) -> (r: usize)
    ensures
        r == (if count < 2 {
            0
        } else {
            chosen
        }),
{
    if count < 2 {
        0
    } else {
        chosen
    }
}

/// Whether to rebuild the pipeline after its files changed: only once the
/// last build is more than 300 milliseconds old.
pub fn should_rebuild(files_changed: bool, since_last_build_ms: u128) -> (r: bool)
    ensures
        r == (files_changed && since_last_build_ms > REBUILD_DELAY_MS),
{
    files_changed && since_last_build_ms > REBUILD_DELAY_MS
}

} // verus!
