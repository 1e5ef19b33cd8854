//! Frames ready to publish, the shared-texture backends' interface, and the
//! name of the protocol each platform publishes with.
use vstd::prelude::*;

verus! {

/// A borrowed view of one BGRA frame ready to publish.
pub struct BgraFrame<'a> {
    pub data: &'a [u8],
    pub width: u32,
    pub height: u32,
    /// bytes per row (may exceed width*4 due to padding)
    pub stride: u32,
}

/// Why a shared-texture backend could not be created or could not publish.
#[derive(Debug)]
pub struct OutputError {
    pub message: String,
}

/// A shared-texture backend that frames are published to.
pub trait SharedTextureOutput {
    /// Publishes `frame`; `Ok(())` when the backend accepted it.
    fn publish(&mut self, frame: &BgraFrame) -> Result<(), OutputError>;
}

/// The parts of a frame as values: its bytes, width, height and stride.
pub open spec fn frame_parts(frame: &BgraFrame) -> (Seq<u8>, u32, u32, u32) {
    (frame.data@, frame.width, frame.height, frame.stride)
}

/// One call of a backend's `publish`: the frame it was handed, as values,
/// and what it returned.
pub type PublishCall = ((Seq<u8>, u32, u32, u32), Result<(), OutputError>);

/// The number of calls in `log` that the backend accepted.
pub open spec fn accepted_count(log: Seq<PublishCall>) -> nat
    decreases log.len(),
{
    if log.len() == 0 {
        0
    } else {
        accepted_count(log.drop_last()) + if log.last().1 is Ok {
            1nat
        } else {
            0nat
        }
    }
}

/// One more call adds one to the accepted count exactly when it was accepted.
pub proof fn lemma_accepted_count_push(log: Seq<PublishCall>, c: PublishCall)
    ensures
        accepted_count(log.push(c)) == accepted_count(log) + if c.1 is Ok {
            1nat
        } else {
            0nat
        },
{
    assert(log.push(c).drop_last() =~= log);
}

/// A backend together with the record of every frame handed to it through
/// this publisher, and of what it answered.
pub struct Publisher<O: SharedTextureOutput> {
    backend: O,
    calls: Ghost<Seq<PublishCall>>,
}

impl<O: SharedTextureOutput> Publisher<O> {
    /// Every call of the backend's `publish` made through this publisher,
    /// oldest first.
    pub closed spec fn log(&self) -> Seq<PublishCall> {
        self.calls@
    }

    /// The backend.
    pub closed spec fn backend_of(&self) -> O {
        self.backend
    }

    /// A publisher to `backend` that has handed it nothing yet.
    pub fn new(backend: O) -> (r: Publisher<O>)
        ensures
            r.log() == Seq::<PublishCall>::empty(),
            r.backend_of() == backend,
    {
        Publisher { backend, calls: Ghost(Seq::empty()) }
    }

    /// The backend.
    pub fn backend(&self) -> (r: &O)
        ensures
            *r == self.backend_of(),
    {
        &self.backend
    }

    /// The backend, taken back.
    pub fn into_backend(self) -> (r: O)
        ensures
            r == self.backend_of(),
    {
        self.backend
    }

    /// Hands `frame` to the backend once and records the call with the
    /// backend's answer, which is returned.
    pub fn publish(&mut self, frame: &BgraFrame) -> (r: Result<(), OutputError>)
        ensures
            final(self).log() == old(self).log().push((frame_parts(frame), r)),
    {
        let r = self.backend.publish(frame);
        proof {
            self.calls@ = self.calls@.push((frame_parts(frame), r));
        }
        r
    }
}

/// The platform the program runs on, as far as publishing is concerned.
#[derive(Clone, Copy, Debug, PartialEq, Eq, Structural)]
pub enum Platform {
    MacOs,
    Windows,
    Other,
}

/// The human-facing name of the shared-texture protocol on `platform`.
pub open spec fn output_kind_name(platform: Platform) -> Seq<char> {
    match platform {
        Platform::MacOs => "Syphon"@,
        Platform::Windows => "Spout"@,
        Platform::Other => "shared-texture"@,
    }
}

/// Human-facing name of the shared-texture protocol used on `platform`.
pub fn output_kind(platform: Platform) -> (r: &'static str)
    ensures
        r@ == output_kind_name(platform),
{
    match platform {
        Platform::MacOs => "Syphon",
        Platform::Windows => "Spout",
        Platform::Other => "shared-texture",
    }
}

} // verus!
