//! The embedded player as far as it is not the player itself: the error that
//! it is in, what it says of its buffer, and when its picture needs a new
//! texture.
use vstd::prelude::*;
use vstd::string::*;

use crate::text::{clone_opt, opt_view, owned};

verus! {

/// The error that the player is in, if it is in one. Whether a stream can be
/// opened shows only some time after the player took it, so errors come as
/// events; the next stream that is loaded clears them.
#[derive(Debug)]
pub struct PlayerErrors {
    last: Option<String>,
}

impl PlayerErrors {
    /// The error that the player is in.
    pub closed spec fn view(self) -> Option<Seq<char>> {
        opt_view(self.last)
    }

    /// No error.
    pub fn new() -> (r: Self)
        ensures
            r.view() is None,
    {
        PlayerErrors { last: None }
    }

    /// A stream is going to be loaded: errors of the last one are past.
    pub fn on_load(&mut self)
        ensures
            final(self).view() is None,
    {
        self.last = None;
    }

    /// Takes in the events that came since the last time, of which only the
    /// errors matter, and tells the error that the player is in now.
    pub fn on_events(&mut self, errors: &Vec<Option<String>>) -> (r: Option<String>)
        ensures
            final(self).view() == latest(old(self).view(), errors@, errors@.len() as int),
            opt_view(r) == final(self).view(),
    {
        let n: usize = errors.len();
        for i in 0..n
            invariant
                n == errors@.len(),
                self.view() == latest(old(self).view(), errors@, i as int),
        {
            match &errors[i] {
                Some(e) => {
                    self.last = Some(e.clone());
                },
                None => {},
            }
        }
        clone_opt(&self.last)
    }

    /// A picture could not be drawn. Its texture is then thrown away, so that
    /// the next picture does not start from a broken one.
    pub fn on_render_failed(&mut self, error: &str)
        ensures
            final(self).view() == Some("Vykreslení snímku selhalo: "@ + error@),
    {
        let mut text = owned("Vykreslení snímku selhalo: ");
        text.append(error);
        self.last = Some(text);
    }
}

/// The error that the player is in after the events below `n`: that of the
/// last event that was an error.
pub open spec fn latest(
    before: Option<Seq<char>>,
    errors: Seq<Option<String>>,
    n: int,
) -> Option<Seq<char>>
    decreases n,
{
    if n <= 0 {
        before
    } else {
        match errors[n - 1] {
            Some(e) => Some(e@),
            None => latest(before, errors, n - 1),
        }
    }
}

/// The percentage of the player's buffer, while it waits for data: the player
/// then says how full it is, where it can.
pub fn buffering_percent(paused_for_cache: bool, state: Option<i64>) -> (r: Option<i64>)
    ensures
        r == if paused_for_cache {
            state
        } else {
            None
        },
{
    if paused_for_cache {
        state
    } else {
        None
    }
}

/// What to do with the texture that the picture is drawn to.
#[derive(Debug, Clone, Copy, PartialEq, Eq, Structural)]
pub enum TargetStep {
    /// There is no room for a picture.
    Skip,
    /// The texture fits.
    Keep,
    /// A new one is needed.
    Rebuild,
}

/// What to do with the texture of the given size, for a picture of `width` by
/// `height` pixels.
pub fn target_step(current: Option<(i32, i32)>, width: i32, height: i32) -> (r: TargetStep)
    ensures
        r == if width <= 0 || height <= 0 {
            TargetStep::Skip
        } else if current == Some((width, height)) {
            TargetStep::Keep
        } else {
            TargetStep::Rebuild
        },
{
    if width <= 0 || height <= 0 {
        return TargetStep::Skip;
    }
    match current {
        Some((w, h)) => if w == width && h == height {
            TargetStep::Keep
        } else {
            TargetStep::Rebuild
        },
        None => TargetStep::Rebuild,
    }
}

/// What is said of a player that could not be given a stream.
pub fn load_error(error: &str) -> (r: String)
    ensures
        r@ == "Nepodařilo se spustit stream: "@ + error@,
{
    let mut out = owned("Nepodařilo se spustit stream: ");
    out.append(error);
    out
}

// ---- laws ---------------------------------------------------------------

/// The player is in the error of the last event that was one, and in the one
/// that it was in before where none was.
pub proof fn law_latest(before: Option<Seq<char>>, errors: Seq<Option<String>>, n: int, k: int)
    requires
        0 <= n <= errors.len(),
    ensures
        (forall|i: int| 0 <= i < n ==> (#[trigger] errors[i]) is None) ==> latest(before, errors, n)
            == before,
        0 <= k < n && errors[k] is Some && (forall|i: int|
            k < i < n ==> (#[trigger] errors[i]) is None) ==> latest(before, errors, n) == Some(
            errors[k]->0@,
        ),
    decreases n,
{
    if n > 0 {
        law_latest(before, errors, n - 1, k);
    }
}

} // verus!
