//! Shader stages and programs: the handles on them, and the barrier that
//! loads the sources of all stages through the asset loader before any
//! program is linked.

use crate::data::{DataLoader, ErrorHandler, ReadAllHandler};
use crate::error::{leaf_error, source_separator, wraps_display, wraps_leaf, GenericError};
use crate::render::context::{GlError, GL_NO_ERROR};
use std::collections::HashMap;
use std::sync::mpsc::{Receiver, SendError, Sender};
use vstd::prelude::*;

verus! {

broadcast use vstd::std_specs::hash::group_hash_axioms;

/// Where the shader sources lie in the archive.
pub const SHADER_NAME_PREFIX: &'static str = "shaders/glsl-1.30/";

/// The longest shader source that is accepted, in bytes.
pub const SHADER_MAX_LEN: usize = 64 * 1024;

/// The stage that a shader is compiled for.
#[derive(Clone, Copy, Debug, PartialEq, Eq, Structural)]
pub enum ShaderKind {
    Fragment,
    Vertex,
}

/// A call to make on the rendering context.
#[derive(Clone, Copy, Debug, PartialEq, Eq, Structural)]
pub enum GlCommand {
    UseProgram(u32),
    DeleteProgram(u32),
    DeleteShader(u32),
}

/// Work on the rendering context that a handle leaves behind when it is
/// released. It goes through the job dispatcher, so that it is done on the
/// context's thread while the context is active.
#[derive(Clone, Copy, Debug, PartialEq, Eq, Structural)]
pub enum RenderJob {
    DeleteShader(u32),
    DeleteProgram(u32),
}

/// Current state of the renderer.
pub struct RenderState {
    pub current_program: u32,
}

impl RenderJob {
    /// The calls that the job consists of. A program that is in use is
    /// unbound before it is deleted; the expired name 0 is never deleted.
    pub open spec fn spec_commands(self, state: RenderState) -> Seq<GlCommand> {
        match self {
            RenderJob::DeleteShader(id) => if id == 0 {
                Seq::empty()
            } else {
                seq![GlCommand::DeleteShader(id)]
            },
            RenderJob::DeleteProgram(id) => if id == 0 {
                Seq::empty()
            } else if state.current_program == id {
                seq![GlCommand::UseProgram(0), GlCommand::DeleteProgram(id)]
            } else {
                seq![GlCommand::DeleteProgram(id)]
            },
        }
    }

    /// The calls to make when the job runs, in order.
    pub fn commands(&self, state: &RenderState) -> (r: Vec<GlCommand>)
        ensures
            r@ == self.spec_commands(*state),
    {
        let mut out = Vec::new();
        match *self {
            RenderJob::DeleteShader(id) => {
                if id != 0 {
                    out.push(GlCommand::DeleteShader(id));
                }
            },
            RenderJob::DeleteProgram(id) => {
                if id != 0 {
                    if state.current_program == id {
                        out.push(GlCommand::UseProgram(0));
                    }
                    out.push(GlCommand::DeleteProgram(id));
                }
            },
        }
        assert(out@ =~= self.spec_commands(*state));
        out
    }
}

/// What the context says of a compilation or a linking that it was asked
/// for.
pub enum BuildStatus {
    /// The context refused the build; `info_log` is what it gives as the
    /// reason.
    Failed { info_log: String },
    /// The context accepted the build; `error` is the error flag that it
    /// shows afterwards, `GL_NO_ERROR` when it shows none.
    Succeeded { error: u32 },
}

/// What a build that ended in `status` is reported as: a build that the
/// context refused fails with `refused` followed by the context's reason;
/// one that it accepted but that left an error flag set fails with
/// `unclean`, the error as its source; any other succeeds.
pub open spec fn build_result(
    refused: Seq<char>,
    unclean: Seq<char>,
    status: BuildStatus,
    r: Result<(), GenericError>,
) -> bool {
    match status {
        BuildStatus::Failed { info_log } => r matches Err(e) && leaf_error(refused + info_log@, e),
        BuildStatus::Succeeded { error } => if error == GL_NO_ERROR {
            r is Ok
        } else {
            r matches Err(e) && wraps_leaf(unclean, e) && e.source->0.message@ == GlError(
                error,
            ).text()
        },
    }
}

/// Turns the context's word on a build into the result of the build.
fn build_outcome(refused: &str, unclean: &'static str, status: BuildStatus) -> (r: Result<
    (),
    GenericError,
>)
    ensures
        build_result(refused@, unclean@, status, r),
{
    match status {
        BuildStatus::Failed { info_log } => {
            let mut message = String::from_str(refused);
            message.append(info_log.as_str());
            Err(GenericError::from(message))
        },
        BuildStatus::Succeeded { error } => match GlError::try_get_error(error) {
            None => Ok(()),
            Some(err) => Err(
                GenericError::from(unclean).with_source(GenericError::from(err.to_text())),
            ),
        },
    }
}

/// What a failed creation call is reported as: `what`, with the context's
/// error as its source.
pub open spec fn creation_failed(what: Seq<char>, e: GenericError) -> bool {
    wraps_leaf(what, e)
}

/// OpenGL shader (stage) wrapper. Its name is 0 once it has expired.
pub struct Shader {
    id: u32,
}

impl Shader {
    /// The shader's raw name; 0 when it has expired.
    pub closed spec fn id(&self) -> u32 {
        self.id
    }

    /// The handle on a shader that the context has just created under the
    /// name `id`. The context gives the name 0 when it could not create
    /// one; `error` is then the error flag that it shows.
    pub fn new(id: u32, error: u32) -> (r: Result<Shader, GenericError>)
        ensures
            match r {
                Ok(shader) => id != 0 && shader.id() == id,
                Err(e) => id == 0 && creation_failed("can't create shader"@, e) && e.source->0.message@
                    == GlError(error).text(),
            },
    {
        if id == 0 {
            return Err(
                GenericError::from("can't create shader").with_source(
                    GenericError::from(GlError::get_error(error).to_text()),
                ),
            );
        }
        Ok(Shader { id })
    }

    /// The result of compiling a shader, from what the context says of it.
    pub fn compiled(status: BuildStatus) -> (r: Result<(), GenericError>)
        ensures
            build_result(
                "shader compilation failed: "@,
                "shader initialization failed"@,
                status,
                r,
            ),
    {
        build_outcome("shader compilation failed: ", "shader initialization failed", status)
    }

    /// Returns the shader's raw OpenGL name.
    pub fn try_id(&self) -> (r: Result<u32, GenericError>)
        ensures
            match r {
                Ok(id) => id != 0 && id == self.id(),
                Err(e) => self.id() == 0 && leaf_error("shader expired"@, e),
            },
    {
        if self.id == 0 {
            Err(GenericError::from("shader expired"))
        } else {
            Ok(self.id)
        }
    }

    /// Gives the shader up: it expires, and the job that deletes it is
    /// handed out for dispatch. A shader that has expired leaves no job.
    pub fn release(&mut self) -> (r: Option<RenderJob>)
        ensures
            final(self).id() == 0,
            r == (if old(self).id() == 0 {
                None
            } else {
                Some(RenderJob::DeleteShader(old(self).id()))
            }),
    {
        if self.id == 0 {
            None
        } else {
            let id = self.id;
            self.id = 0;
            Some(RenderJob::DeleteShader(id))
        }
    }
}

/// OpenGL shader program wrapper. Its name is 0 once it has expired.
pub struct Program {
    id: u32,
}

impl Program {
    /// The program's raw name; 0 when it has expired.
    pub closed spec fn id(&self) -> u32 {
        self.id
    }

    /// The handle on a program that the context has just created under the
    /// name `id`. The context gives the name 0 when it could not create
    /// one; `error` is then the error flag that it shows.
    pub fn new(id: u32, error: u32) -> (r: Result<Program, GenericError>)
        ensures
            match r {
                Ok(program) => id != 0 && program.id() == id,
                Err(e) => id == 0 && creation_failed("can't create shader program"@, e)
                    && e.source->0.message@ == GlError(error).text(),
            },
    {
        if id == 0 {
            return Err(
                GenericError::from("can't create shader program").with_source(
                    GenericError::from(GlError::get_error(error).to_text()),
                ),
            );
        }
        Ok(Program { id })
    }

    /// The result of linking a program, from what the context says of it.
    pub fn linked(status: BuildStatus) -> (r: Result<(), GenericError>)
        ensures
            build_result(
                "shader program linking failed: "@,
                "shader program initialization failed"@,
                status,
                r,
            ),
    {
        build_outcome(
            "shader program linking failed: ",
            "shader program initialization failed",
            status,
        )
    }

    /// Returns the program's raw OpenGL name.
    pub fn try_id(&self) -> (r: Result<u32, GenericError>)
        ensures
            match r {
                Ok(id) => id != 0 && id == self.id(),
                Err(e) => self.id() == 0 && leaf_error("shader program expired"@, e),
            },
    {
        if self.id == 0 {
            Err(GenericError::from("shader program expired"))
        } else {
            Ok(self.id)
        }
    }

    /// Gives the program up: it expires, and the job that deletes it is
    /// handed out for dispatch. A program that has expired leaves no job.
    pub fn release(&mut self) -> (r: Option<RenderJob>)
        ensures
            final(self).id() == 0,
            r == (if old(self).id() == 0 {
                None
            } else {
                Some(RenderJob::DeleteProgram(old(self).id()))
            }),
    {
        if self.id == 0 {
            None
        } else {
            let id = self.id;
            self.id = 0;
            Some(RenderJob::DeleteProgram(id))
        }
    }
}

/// Data received when reading a shader's source is completed or fails.
pub enum ShaderReadResponse {
    Loaded { name: String, id: u32, source: Vec<u8> },
    Failed { name: String, err: GenericError },
}

/// Handles asynchronous loading of shader sources: sends what became of
/// the read, under the shader's name and raw name, to whoever collects.
pub struct ShaderReadHandler {
    pub id: u32,
    pub name: String,
    pub sender: Sender<ShaderReadResponse>,
}

impl ShaderReadHandler {
    /// The response that reports the source `buf` under the handler's
    /// name and raw name, with the channel to send it on.
    pub fn loaded(self, buf: Vec<u8>) -> (r: (Sender<ShaderReadResponse>, ShaderReadResponse))
        ensures
            r.0 == self.sender,
            r.1 == (ShaderReadResponse::Loaded { name: self.name, id: self.id, source: buf }),
    {
        (self.sender, ShaderReadResponse::Loaded { name: self.name, id: self.id, source: buf })
    }

    /// The response that reports the failure `err` under the handler's
    /// name, with the channel to send it on.
    pub fn failed(self, err: GenericError) -> (r: (Sender<ShaderReadResponse>, ShaderReadResponse))
        ensures
            r.0 == self.sender,
            r.1 == (ShaderReadResponse::Failed { name: self.name, err }),
    {
        (self.sender, ShaderReadResponse::Failed { err, name: self.name })
    }
}

impl ErrorHandler for ShaderReadHandler {
    fn on_error(self: Box<Self>, err: GenericError) {
        let this = *self;
        let (sender, response) = this.failed(err);
        let _ = sender.send(response);
    }
}

/// What a handler gives when it has sent its response, from what the send
/// returned: it fails exactly when the response could not be sent.
pub fn response_outcome<T: 'static + Send>(sent: Result<(), SendError<T>>) -> (r: Result<
    (),
    GenericError,
>)
    ensures
        r is Ok <==> sent is Ok,
        r matches Err(e) ==> sent is Err && wraps_display("mpsc send failed"@, &sent->Err_0, e),
{
    match sent {
        Ok(()) => Ok(()),
        Err(err) => Err(GenericError::from(err)),
    }
}

impl ReadAllHandler for ShaderReadHandler {
    /// The handler fails only when the response cannot be sent.
    open spec fn read_all_result(&self, buf: Seq<u8>, r: Result<(), GenericError>) -> bool {
        r matches Err(e) ==> wraps_leaf("mpsc send failed"@, e)
    }

    fn on_read_all(self: Box<Self>, buf: Vec<u8>) -> (r: Result<(), GenericError>) {
        let this = *self;
        let (sender, response) = this.loaded(buf);
        response_outcome(sender.send(response))
    }
}

/// What the barrier learns in one turn of its collection loop.
pub enum BarrierEvent {
    /// The source of the shader `id` arrived, and the build step made
    /// `build` of it.
    Loaded { name: Seq<char>, id: u32, source: Seq<u8>, build: Result<(), GenericError> },
    /// A source arrived for the shader `id`, which the barrier does not
    /// await.
    Stray { name: Seq<char>, id: u32 },
    /// The read of a source failed.
    Failed { name: Seq<char>, err: GenericError },
    /// No response can arrive any more.
    Disconnected,
}

/// Why a barrier failed.
pub enum BarrierError {
    /// The read of the source called `name` failed with `err`.
    Read { name: Seq<char>, err: GenericError },
    /// The build of the source called `name` failed with `err`.
    Build { name: Seq<char>, err: GenericError },
    /// A source arrived for a shader that the barrier does not wait for.
    UnknownId,
    /// The loader went away while sources were still awaited.
    Disconnected,
}

/// A barrier as a value.
pub enum BarrierState {
    /// No failure so far: the shaders still awaited, and the sources built,
    /// in the order of their arrival.
    Collecting { pending: Set<u32>, built: Seq<(u32, Seq<u8>)> },
    /// The first failure. Nothing is read or built after it.
    Failed { error: BarrierError, built: Seq<(u32, Seq<u8>)> },
}

impl BarrierState {
    /// A barrier that awaits `pending` and has built nothing yet.
    pub open spec fn start(pending: Set<u32>) -> BarrierState {
        BarrierState::Collecting { pending, built: Seq::empty() }
    }

    /// Nothing is awaited and nothing failed: the step that depends on the
    /// barrier may proceed.
    pub open spec fn is_complete(self) -> bool {
        self matches BarrierState::Collecting { pending, .. } && pending.len() == 0
    }

    /// The sources built so far, with the shaders they belong to.
    pub open spec fn built(self) -> Seq<(u32, Seq<u8>)> {
        match self {
            BarrierState::Collecting { built, .. } => built,
            BarrierState::Failed { built, .. } => built,
        }
    }

    /// The barrier after `event`. A barrier that is complete or has failed
    /// takes no further event.
    pub open spec fn step(self, event: BarrierEvent) -> BarrierState {
        match self {
            BarrierState::Failed { .. } => self,
            BarrierState::Collecting { pending, built } => if pending.len() == 0 {
                self
            } else {
                match event {
                    BarrierEvent::Loaded { name, id, source, build } => if !pending.contains(id) {
                        BarrierState::Failed { error: BarrierError::UnknownId, built }
                    } else {
                        match build {
                            Ok(_) => BarrierState::Collecting {
                                pending: pending.remove(id),
                                built: built.push((id, source)),
                            },
                            Err(err) => BarrierState::Failed {
                                error: BarrierError::Build { name, err },
                                built,
                            },
                        }
                    },
                    BarrierEvent::Stray { .. } => BarrierState::Failed {
                        error: BarrierError::UnknownId,
                        built,
                    },
                    BarrierEvent::Failed { name, err } => BarrierState::Failed {
                        error: BarrierError::Read { name, err },
                        built,
                    },
                    BarrierEvent::Disconnected => BarrierState::Failed {
                        error: BarrierError::Disconnected,
                        built,
                    },
                }
            },
        }
    }

    /// The barrier after `events`, in order.
    pub open spec fn run(self, events: Seq<BarrierEvent>) -> BarrierState
        decreases events.len(),
    {
        if events.len() == 0 {
            self
        } else {
            self.run(events.drop_last()).step(events.last())
        }
    }
}

/// Whether `e` is the error that the barrier reports for `error`: a failed
/// read or build is reported under the name of the source, with the text of
/// its cause.
pub open spec fn reports(error: BarrierError, e: GenericError) -> bool {
    match error {
        BarrierError::Read { name, err } => leaf_error(name + source_separator() + err.text(), e),
        BarrierError::Build { name, err } => leaf_error(name + source_separator() + err.text(), e),
        BarrierError::UnknownId => leaf_error("invalid shader id"@, e),
        BarrierError::Disconnected => wraps_leaf("mpsc receive failed"@, e),
    }
}

/// An event that carries a source whose build succeeds.
pub open spec fn is_success(event: BarrierEvent) -> bool {
    event matches BarrierEvent::Loaded { build, .. } && build is Ok
}

/// The first `count` of `events` are sources of different shaders of
/// `pending`, each built with success.
pub open spec fn successes(pending: Set<u32>, events: Seq<BarrierEvent>, count: int) -> bool {
    &&& 0 <= count <= events.len()
    &&& forall|i: int| 0 <= i < count ==> is_success(#[trigger] events[i])
    &&& forall|i: int| 0 <= i < count ==> pending.contains((#[trigger] events[i])->Loaded_id)
    &&& forall|i: int, j: int|
        0 <= i < j < count ==> (#[trigger] events[i])->Loaded_id != (#[trigger] events[j])->Loaded_id
}

/// The shaders whose sources are among the first `count` of `events`.
pub open spec fn arrived(events: Seq<BarrierEvent>, count: int) -> Set<u32> {
    Set::new(|id: u32| exists|i: int| 0 <= i < count && (#[trigger] events[i])->Loaded_id == id)
}

/// While sources arrive and build, the barrier goes on collecting: it has
/// built each source that arrived, in the order of arrival, and still
/// awaits the others.
pub proof fn lemma_successes_collect(pending: Set<u32>, events: Seq<BarrierEvent>, count: int)
    requires
        pending.finite(),
        successes(pending, events, count),
    ensures
        BarrierState::start(pending).run(events.take(count)) == (BarrierState::Collecting {
            pending: pending.difference(arrived(events, count)),
            built: Seq::new(
                count as nat,
                |i: int| (events[i]->Loaded_id, events[i]->Loaded_source),
            ),
        }),
        pending.difference(arrived(events, count)).len() == pending.len() - count,
        arrived(events, count).finite(),
    decreases count,
{
    let done = events.take(count);
    let built = Seq::new(count as nat, |i: int| (events[i]->Loaded_id, events[i]->Loaded_source));
    if count == 0 {
        assert(arrived(events, 0) =~= Set::<u32>::empty());
        assert(pending.difference(arrived(events, 0)) =~= pending);
        assert(built =~= Seq::empty());
    } else {
        let before = count - 1;
        lemma_successes_collect(pending, events, before);
        assert(done.drop_last() =~= events.take(before));
        assert(done.last() == events[before]);
        let id = events[before]->Loaded_id;
        let left = pending.difference(arrived(events, before));
        assert(left.contains(id)) by {
            if arrived(events, before).contains(id) {
                let i = choose|i: int| 0 <= i < before && (#[trigger] events[i])->Loaded_id == id;
                assert(events[i]->Loaded_id != events[before]->Loaded_id);
            }
        }
        assert(arrived(events, count) =~= arrived(events, before).insert(id)) by {
            assert forall|x: u32| arrived(events, before).insert(id).contains(x) implies arrived(
                events,
                count,
            ).contains(x) by {
                if x == id {
                    assert(events[before]->Loaded_id == x);
                } else {
                    let i = choose|i: int| 0 <= i < before && (#[trigger] events[i])->Loaded_id == x;
                    assert(0 <= i < count && events[i]->Loaded_id == x);
                }
            }
        }
        assert(left.remove(id) =~= pending.difference(arrived(events, count)));
        assert(left.len() > 0);
        let prev = Seq::new(
            before as nat,
            |i: int| (events[i]->Loaded_id, events[i]->Loaded_source),
        );
        assert(prev.push((id, events[before]->Loaded_source)) =~= built);
    }
}

/// Given sources for all the shaders awaited, each arriving once and each
/// built with success, the barrier completes having built every one of
/// them, whatever the order in which they arrive.
pub proof fn lemma_all_successes_complete(pending: Set<u32>, events: Seq<BarrierEvent>)
    requires
        pending.finite(),
        events.len() == pending.len(),
        successes(pending, events, events.len() as int),
    ensures
        BarrierState::start(pending).run(events).is_complete(),
        BarrierState::start(pending).run(events).built().len() == pending.len(),
        forall|i: int|
            0 <= i < events.len() ==> BarrierState::start(pending).run(events).built()[i] == ((
                #[trigger] events[i])->Loaded_id, events[i]->Loaded_source),
        arrived(events, events.len() as int) == pending,
{
    let n = events.len() as int;
    lemma_successes_collect(pending, events, n);
    assert(events.take(n) =~= events);
    let got = arrived(events, n);
    let left = pending.difference(got);
    assert(left.len() == 0);
    assert(left =~= Set::<u32>::empty());
    assert(got =~= pending) by {
        assert forall|x: u32| got.contains(x) implies pending.contains(x) by {
            let i = choose|i: int| 0 <= i < n && (#[trigger] events[i])->Loaded_id == x;
            assert(pending.contains(events[i]->Loaded_id));
        }
        assert forall|x: u32| pending.contains(x) implies got.contains(x) by {
            if !got.contains(x) {
                assert(left.contains(x));
            }
        }
    }
}

/// The error that a failing event stands for.
pub open spec fn failure_of(event: BarrierEvent) -> BarrierError {
    match event {
        BarrierEvent::Loaded { name, build, .. } => BarrierError::Build { name, err: build->Err_0 },
        BarrierEvent::Stray { .. } => BarrierError::UnknownId,
        BarrierEvent::Failed { name, err } => BarrierError::Read { name, err },
        BarrierEvent::Disconnected => BarrierError::Disconnected,
    }
}

/// An event that makes the barrier fail although it is for a shader that
/// is awaited: a failed read, a failed build, or the loss of the loader.
pub open spec fn is_failure(pending: Set<u32>, event: BarrierEvent) -> bool {
    match event {
        BarrierEvent::Loaded { id, build, .. } => pending.contains(id) && build is Err,
        _ => true,
    }
}

/// The first failure wins: when a failure arrives while sources are still
/// awaited, after any number of successes, the barrier fails with that
/// failure, keeps it whatever arrives later, and never completes.
pub proof fn lemma_first_failure_wins(
    pending: Set<u32>,
    events: Seq<BarrierEvent>,
    at: int,
)
    requires
        pending.finite(),
        0 <= at < events.len(),
        at < pending.len(),
        successes(pending, events, at),
        is_failure(pending.difference(arrived(events, at)), events[at]),
    ensures
        BarrierState::start(pending).run(events) == (BarrierState::Failed {
            error: failure_of(events[at]),
            built: Seq::new(at as nat, |i: int| (events[i]->Loaded_id, events[i]->Loaded_source)),
        }),
        !BarrierState::start(pending).run(events).is_complete(),
    decreases events.len(),
{
    let start = BarrierState::start(pending);
    if at == events.len() - 1 {
        lemma_successes_collect(pending, events, at);
        assert(events.drop_last() =~= events.take(at));
    } else {
        let init = events.drop_last();
        assert(successes(pending, init, at)) by {
            assert forall|i: int| 0 <= i < at implies is_success(#[trigger] init[i]) by {
                assert(init[i] == events[i]);
            }
            assert forall|i: int| 0 <= i < at implies pending.contains(
                (#[trigger] init[i])->Loaded_id,
            ) by {
                assert(init[i] == events[i]);
            }
            assert forall|i: int, j: int| 0 <= i < j < at implies (#[trigger] init[i])->Loaded_id != (
            #[trigger] init[j])->Loaded_id by {
                assert(init[i] == events[i]);
                assert(init[j] == events[j]);
            }
        }
        assert(arrived(init, at) =~= arrived(events, at)) by {
            assert forall|x: u32| arrived(init, at).contains(x) implies arrived(
                events,
                at,
            ).contains(x) by {
                let i = choose|i: int| 0 <= i < at && (#[trigger] init[i])->Loaded_id == x;
                assert(init[i] == events[i]);
            }
            assert forall|x: u32| arrived(events, at).contains(x) implies arrived(
                init,
                at,
            ).contains(x) by {
                let i = choose|i: int| 0 <= i < at && (#[trigger] events[i])->Loaded_id == x;
                assert(init[i] == events[i]);
            }
        }
        assert(init[at] == events[at]);
        lemma_first_failure_wins(pending, init, at);
        assert(Seq::new(at as nat, |i: int| (init[i]->Loaded_id, init[i]->Loaded_source))
            =~= Seq::new(at as nat, |i: int| (events[i]->Loaded_id, events[i]->Loaded_source)));
    }
}

/// A source that has arrived for a shader that was awaited, to be built.
pub struct BuildOrder {
    pub name: String,
    pub id: u32,
    pub kind: ShaderKind,
    pub source: Vec<u8>,
}

/// The error for a read or a build that failed with `err` on the source
/// called `name`.
pub fn named_failure(name: &str, err: &GenericError) -> (r: GenericError)
    ensures
        leaf_error(name@ + source_separator() + err.text(), r),
{
    let mut message = String::from_str(name);
    proof {
        reveal_strlit(": ");
    }
    assert(": "@ =~= source_separator());
    message.append(": ");
    let text = err.to_text();
    message.append(text.as_str());
    GenericError::from(message)
}

/// The shaders whose sources are awaited before the programs can be
/// linked, by their raw names.
pub struct LoadBarrier {
    pending: HashMap<u32, ShaderKind>,
}

impl LoadBarrier {
    /// The shaders still awaited: their raw names, and the kind of each.
    pub closed spec fn kinds(&self) -> Map<u32, ShaderKind> {
        self.pending@
    }

    /// The raw names of the shaders still awaited.
    pub open spec fn awaited(&self) -> Set<u32> {
        self.kinds().dom()
    }

    /// A barrier that awaits nothing.
    pub fn new() -> (r: LoadBarrier)
        ensures
            r.kinds() == Map::<u32, ShaderKind>::empty(),
    {
        LoadBarrier { pending: HashMap::new() }
    }

    /// The number of shaders still awaited.
    pub fn pending(&self) -> (r: usize)
        ensures
            r == self.awaited().len(),
            self.awaited().finite(),
    {
        self.pending.len()
    }

    /// Whether nothing is awaited any more.
    pub fn is_complete(&self) -> (r: bool)
        ensures
            r == (self.awaited().len() == 0),
            self.awaited().finite(),
    {
        self.pending.len() == 0
    }

    /// Makes the barrier await the source of the shader `id`.
    pub fn register(&mut self, id: u32, kind: ShaderKind)
        ensures
            final(self).kinds() == old(self).kinds().insert(id, kind),
    {
        self.pending.insert(id, kind);
    }

    /// Takes a response from the loader. A source for an awaited shader is
    /// handed on to be built, and the shader is awaited no longer; anything
    /// else is the failure of the barrier.
    pub fn accept(&mut self, response: ShaderReadResponse) -> (r: Result<BuildOrder, GenericError>)
        ensures
            match response {
                ShaderReadResponse::Loaded { name, id, source } => if old(self).awaited().contains(
                    id,
                ) {
                    &&& r == Ok::<BuildOrder, GenericError>(
                        BuildOrder { name, id, kind: old(self).kinds()[id], source },
                    )
                    &&& final(self).kinds() == old(self).kinds().remove(id)
                } else {
                    &&& r matches Err(e)
                    &&& reports(BarrierError::UnknownId, e)
                    &&& final(self).kinds() == old(self).kinds()
                },
                ShaderReadResponse::Failed { name, err } => {
                    &&& r matches Err(e)
                    &&& reports(BarrierError::Read { name: name@, err }, e)
                    &&& final(self).kinds() == old(self).kinds()
                },
            },
    {
        match response {
            ShaderReadResponse::Loaded { name, id, source } => {
                match self.pending.remove(&id) {
                    None => {
                        assert(self.kinds() =~= old(self).kinds());
                        Err(GenericError::from("invalid shader id"))
                    },
                    Some(kind) => Ok(BuildOrder { name, id, kind, source }),
                }
            },
            ShaderReadResponse::Failed { name, err } => Err(named_failure(name.as_str(), &err)),
        }
    }

    /// Receives responses until nothing is awaited, building each source as
    /// it arrives, and stops at the first failure. Returns with the result
    /// the events that it went through; each build in them is what `build`
    /// returned for that shader and source.
    pub fn collect<B: Fn(u32, Vec<u8>) -> Result<(), GenericError>>(
        &mut self,
        receiver: &Receiver<ShaderReadResponse>,
        build: &B,
    ) -> (r: (Result<(), GenericError>, Ghost<Seq<BarrierEvent>>))
        requires
            forall|id: u32, source: Vec<u8>| call_requires(build, (id, source)),
        ensures
            ({
                let end = BarrierState::start(old(self).awaited()).run(r.1@);
                match r.0 {
                    Ok(_) => end.is_complete() && final(self).awaited().len() == 0,
                    Err(e) => end matches BarrierState::Failed { error, .. } && reports(error, e),
                }
            }),
            forall|i: int| 0 <= i < r.1@.len() ==> built_by(build, #[trigger] r.1@[i]),
    {
        let ghost start = BarrierState::start(self.awaited());
        let ghost mut events: Seq<BarrierEvent> = Seq::empty();
        let ghost mut built: Seq<(u32, Seq<u8>)> = Seq::empty();
        while !self.is_complete()
            invariant
                forall|id: u32, source: Vec<u8>| call_requires(build, (id, source)),
                self.awaited().finite(),
                start == BarrierState::start(old(self).awaited()),
                start.run(events) == (BarrierState::Collecting { pending: self.awaited(), built }),
                forall|i: int|
                    0 <= i < events.len() ==> built_by(build, #[trigger] events[i]),
            decreases self.awaited().len(),
        {
            let ghost before = events;
            let response = match receiver.recv() {
                Ok(response) => response,
                Err(err) => {
                    proof {
                        events = before.push(BarrierEvent::Disconnected);
                        assert(events.drop_last() =~= before);
                    }
                    return (Err(GenericError::from(err)), Ghost(events));
                },
            };
            let ghost arrival = response;
            let order = match self.accept(response) {
                Ok(order) => order,
                Err(err) => {
                    proof {
                        events = before.push(
                            match arrival {
                                ShaderReadResponse::Loaded { name, id, source } => BarrierEvent::Stray {
                                    name: name@,
                                    id,
                                },
                                ShaderReadResponse::Failed { name, err } => BarrierEvent::Failed {
                                    name: name@,
                                    err,
                                },
                            },
                        );
                        assert(events.drop_last() =~= before);
                    }
                    return (Err(err), Ghost(events));
                },
            };
            let BuildOrder { name, id, kind, source } = order;
            let ghost handed = source;
            let result = build(id, source);
            proof {
                events = before.push(
                    BarrierEvent::Loaded { name: name@, id, source: handed@, build: result },
                );
                assert(events.drop_last() =~= before);
                assert(call_ensures(build, (id, handed), result));
                assert(built_by(build, events.last()));
            }
            if let Err(err) = result {
                return (Err(named_failure(name.as_str(), &err)), Ghost(events));
            }
            proof {
                built = built.push((id, handed@));
            }
        }
        (Ok(()), Ghost(events))
    }
}

/// Whether `event`, if a source arrived with it, holds what `build`
/// returned for that shader and source.
pub open spec fn built_by<B: Fn(u32, Vec<u8>) -> Result<(), GenericError>>(
    build: &B,
    event: BarrierEvent,
) -> bool {
    event matches BarrierEvent::Loaded { id, source, build: result, .. } ==> exists|
        handed: Vec<u8>,
    |
        handed@ == source && #[trigger] call_ensures(build, (id, handed), result)
}

/// The asynchronous loading of a set of shader sources: the barrier, and
/// the channel on which the loader's worker reports each source.
pub struct ShaderLoads {
    barrier: LoadBarrier,
    sender: Sender<ShaderReadResponse>,
    receiver: Receiver<ShaderReadResponse>,
}

/// What is asked of the loader for the source of one shader.
pub struct SourceRequest {
    /// The entry that holds the source.
    pub entry: String,
    /// The handler that reports what becomes of the read.
    pub handler: ShaderReadHandler,
    /// The longest source that is accepted.
    pub max_len: Option<usize>,
}

/// What is asked of the loader for the source of one shader, as a value:
/// the entry, the raw name and the name that the handler reports under,
/// and the longest source that is accepted.
pub struct Asked {
    pub entry: Seq<char>,
    pub id: u32,
    pub name: Seq<char>,
    pub max_len: Option<usize>,
}

impl SourceRequest {
    /// What the request asks.
    pub open spec fn asks(self) -> Asked {
        Asked {
            entry: self.entry@,
            id: self.handler.id,
            name: self.handler.name@,
            max_len: self.max_len,
        }
    }
}

/// Gives up a sending end of the completion channel.
fn close(sender: Sender<ShaderReadResponse>) {
}

/// Adds to `jobs` the job that `shader` leaves behind, if any.
fn release_into(shader: &mut Shader, jobs: &mut Vec<RenderJob>)
    ensures
        final(shader).id() == 0,
        final(jobs)@ == (if old(shader).id() == 0 {
            old(jobs)@
        } else {
            old(jobs)@.push(RenderJob::DeleteShader(old(shader).id()))
        }),
{
    if let Some(job) = shader.release() {
        jobs.push(job);
    }
}

impl ShaderLoads {
    /// The raw names of the shaders whose sources are awaited.
    pub closed spec fn awaited(&self) -> Set<u32> {
        self.barrier.awaited()
    }

    /// A set of loads with nothing requested yet.
    pub fn new() -> (r: ShaderLoads)
        ensures
            r.awaited() == Set::<u32>::empty(),
    {
        let (sender, receiver) = std::sync::mpsc::channel();
        let r = ShaderLoads { barrier: LoadBarrier::new(), sender, receiver };
        assert(r.awaited() =~= Set::<u32>::empty());
        r
    }

    /// What is asked of the loader for the source called `name` of the
    /// shader `id`: the entry of that name under [`SHADER_NAME_PREFIX`], at
    /// most [`SHADER_MAX_LEN`] bytes of it, into a handler that reports
    /// under the entry's name and the shader's raw name.
    pub open spec fn asked(name: Seq<char>, id: u32) -> Asked {
        Asked {
            entry: SHADER_NAME_PREFIX@ + name,
            id,
            name: SHADER_NAME_PREFIX@ + name,
            max_len: Some(SHADER_MAX_LEN),
        }
    }

    /// Builds what is asked of the loader for the source called `name` of
    /// the shader `id`.
    pub fn request(&self, name: &str, id: u32) -> (r: SourceRequest)
        ensures
            r.asks() == ShaderLoads::asked(name@, id),
    {
        let mut entry = String::from_str(SHADER_NAME_PREFIX);
        entry.append(name);
        let handler = ShaderReadHandler { id, name: entry.clone(), sender: self.sender.clone() };
        SourceRequest { entry, handler, max_len: Some(SHADER_MAX_LEN) }
    }

    /// Requests the source called `name` for `shader` from the loader and
    /// makes the barrier await it. What is asked is what
    /// [`ShaderLoads::asked`] says for the name and the shader's raw name,
    /// and is returned with the result. Fails when the shader has expired,
    /// and then asks nothing, or when the loader's worker is gone.
    pub fn load(&mut self, data: &DataLoader, name: &str, kind: ShaderKind, shader: &Shader) -> (r:
        (Result<(), GenericError>, Ghost<Option<Asked>>))
        ensures
            shader.id() == 0 ==> final(self).awaited() == old(self).awaited() && r.1@ is None && (
            r.0 matches Err(e) && leaf_error("shader expired"@, e)),
            shader.id() != 0 ==> final(self).awaited() == old(self).awaited().insert(shader.id())
                && r.1@ == Some(ShaderLoads::asked(name@, shader.id()))
                && crate::data::request_sent(SHADER_NAME_PREFIX@ + name@, r.0),
    {
        let id = match shader.try_id() {
            Ok(id) => id,
            Err(err) => {
                return (Err(err), Ghost(None));
            },
        };
        self.barrier.register(id, kind);
        assert(self.awaited() =~= old(self).awaited().insert(id));
        let request = self.request(name, id);
        let ghost asked = request.asks();
        let SourceRequest { entry, handler, max_len } = request;
        (data.read_all(entry.as_str(), handler, max_len), Ghost(Some(asked)))
    }

    /// Waits until every requested source has arrived and has been built,
    /// or until the first failure. Returns with the result the events that
    /// it went through.
    pub fn collect<B: Fn(u32, Vec<u8>) -> Result<(), GenericError>>(self, build: &B) -> (r: (
        Result<(), GenericError>,
        Ghost<Seq<BarrierEvent>>,
    ))
        requires
            forall|id: u32, source: Vec<u8>| call_requires(build, (id, source)),
        ensures
            ({
                let end = BarrierState::start(self.awaited()).run(r.1@);
                match r.0 {
                    Ok(_) => end.is_complete(),
                    Err(e) => end matches BarrierState::Failed { error, .. } && reports(error, e),
                }
            }),
            forall|i: int| 0 <= i < r.1@.len() ==> built_by(build, #[trigger] r.1@[i]),
    {
        let ShaderLoads { barrier, sender, receiver } = self;
        let mut barrier = barrier;
        close(sender);
        barrier.collect(&receiver, build)
    }
}

/// What a barrier was started on and what it went through.
pub struct BarrierRun {
    /// The raw names of the shaders that were awaited at the start.
    pub awaited: Set<u32>,
    /// The events of the collection loop, in order.
    pub events: Seq<BarrierEvent>,
}

impl BarrierRun {
    /// The barrier at the end of the run.
    pub open spec fn end(self) -> BarrierState {
        BarrierState::start(self.awaited).run(self.events)
    }

    /// The run ended in a failure that is reported as `e`.
    pub open spec fn failed_with(self, e: GenericError) -> bool {
        self.end() matches BarrierState::Failed { error, .. } && reports(error, e)
    }
}

/// What a loading of shaders and programs asked of the context and of the
/// loader, and what came back, in order.
pub struct Loading {
    /// What the context made of each request for a shader: the kind asked
    /// for, the raw name given, and the error flag shown.
    pub created: Seq<(ShaderKind, u32, u32)>,
    /// The requests made of the loader: what was asked, and what the
    /// request came to.
    pub requested: Seq<(Asked, Result<(), GenericError>)>,
    /// The run of the barrier, where one was started.
    pub run: Option<BarrierRun>,
    /// What the context made of the request for a program, where one was
    /// asked for: the raw name given, and the error flag shown.
    pub program: Option<(u32, u32)>,
    /// What the linking of the program came to, where it was tried.
    pub linked: Option<Result<(), GenericError>>,
}

/// What a loading step gives when it has finished: its result, the jobs
/// that delete what is no longer needed, for dispatch, and what the step
/// asked and got.
pub struct Finished<T> {
    pub result: Result<T, GenericError>,
    pub released: Vec<RenderJob>,
    pub trace: Ghost<Loading>,
}

/// Whether `e` is the error for something that the context did not create
/// and showed the error flag `flag` for.
pub open spec fn not_created(what: Seq<char>, flag: u32, e: GenericError) -> bool {
    creation_failed(what, e) && e.source->0.message@ == GlError(flag).text()
}

/// Whether `t` holds what `create` and `build` returned and what the loader
/// answered: each shader is what `create` gave for its kind, each request
/// came to what the loader's handle says of it, and each source was built
/// by `build`.
pub open spec fn shaders_traced<C: Fn(ShaderKind) -> (u32, u32), B: Fn(u32, Vec<u8>) -> Result<
    (),
    GenericError,
>>(create: &C, build: &B, t: Loading) -> bool {
    &&& forall|i: int|
        0 <= i < t.created.len() ==> call_ensures(
            create,
            ((#[trigger] t.created[i]).0,),
            (t.created[i].1, t.created[i].2),
        )
    &&& forall|i: int|
        0 <= i < t.requested.len() ==> crate::data::request_sent(
            (#[trigger] t.requested[i]).0.entry,
            t.requested[i].1,
        )
    &&& t.run matches Some(run) ==> forall|i: int|
        0 <= i < run.events.len() ==> built_by(build, #[trigger] run.events[i])
}

/// The jobs that delete the shaders of the raw names given, in order.
pub open spec fn delete_shaders(ids: Seq<u32>) -> Seq<RenderJob> {
    Seq::new(ids.len(), |i: int| RenderJob::DeleteShader(ids[i]))
}

/// What the loading of the two shaders gives, step by step, for what it
/// asked and got: the fragment shader is created, its source requested
/// under its name, with its raw name and the greatest length, then the same
/// for the vertex shader, and only then are the sources awaited. The first step that fails ends the loading with that step's
/// error, nothing further is asked, and the shaders made so far are
/// released. `r` holds the raw names of the fragment and the vertex shader.
pub open spec fn shaders_outcome(t: Loading, r: Result<(u32, u32), GenericError>, released: Seq<
    RenderJob,
>) -> bool {
    let frag = t.created[0];
    let vert = t.created[1];
    &&& t.program is None
    &&& t.linked is None
    &&& t.created.len() >= 1
    &&& frag.0 == ShaderKind::Fragment
    &&& if frag.1 == 0 {
        &&& t.created.len() == 1
        &&& t.requested.len() == 0
        &&& t.run is None
        &&& released == delete_shaders(Seq::empty())
        &&& r matches Err(e)
        &&& not_created("can't create shader"@, frag.2, e)
    } else {
        &&& t.requested.len() >= 1
        &&& t.requested[0].0 == ShaderLoads::asked("unlit.frag"@, frag.1)
        &&& if t.requested[0].1 is Err {
            &&& t.created.len() == 1
            &&& t.requested.len() == 1
            &&& t.run is None
            &&& released == delete_shaders(seq![frag.1])
            &&& r matches Err(e)
            &&& e == t.requested[0].1->Err_0
        } else {
            &&& t.created.len() == 2
            &&& vert.0 == ShaderKind::Vertex
            &&& if vert.1 == 0 {
                &&& t.requested.len() == 1
                &&& t.run is None
                &&& released == delete_shaders(seq![frag.1])
                &&& r matches Err(e)
                &&& not_created("can't create shader"@, vert.2, e)
            } else {
                &&& t.requested.len() == 2
                &&& t.requested[1].0 == ShaderLoads::asked("unlit.vert"@, vert.1)
                &&& if t.requested[1].1 is Err {
                    &&& t.run is None
                    &&& released == delete_shaders(seq![frag.1, vert.1])
                    &&& r matches Err(e)
                    &&& e == t.requested[1].1->Err_0
                } else {
                    &&& t.run matches Some(run)
                    &&& run.awaited == set![frag.1, vert.1]
                    &&& if run.end().is_complete() {
                        &&& released == delete_shaders(Seq::empty())
                        &&& r == Ok::<(u32, u32), GenericError>((frag.1, vert.1))
                    } else {
                        &&& released == delete_shaders(seq![frag.1, vert.1])
                        &&& r matches Err(e)
                        &&& run.failed_with(e)
                    }
                }
            }
        }
    }
}

/// Struct containing all shader steps.
pub struct Shaders {
    pub unlit_frag: Shader,
    pub unlit_vert: Shader,
}

impl Shaders {
    /// The raw names of the fragment and the vertex shader that a loading
    /// gave, or its error.
    pub open spec fn ids(r: Result<Shaders, GenericError>) -> Result<(u32, u32), GenericError> {
        match r {
            Ok(shaders) => Ok((shaders.unlit_frag.id(), shaders.unlit_vert.id())),
            Err(e) => Err(e),
        }
    }

    /// Loads and compiles all used shaders. `create` makes a shader of a
    /// kind on the context and returns its raw name, with the context's
    /// error flag where that name is 0; `build` compiles a source for
    /// the shader of a raw name. Succeeds only when the source of every
    /// shader has arrived and has been built; on failure the shaders made
    /// so far are released.
    pub fn load_all<C, B>(data: &DataLoader, create: &C, build: &B) -> (r: Finished<Shaders>) where
        C: Fn(ShaderKind) -> (u32, u32),
        B: Fn(u32, Vec<u8>) -> Result<(), GenericError>,

        requires
            forall|kind: ShaderKind| call_requires(create, (kind,)),
            forall|id: u32, source: Vec<u8>| call_requires(build, (id, source)),
        ensures
            shaders_traced(create, build, r.trace@),
            shaders_outcome(r.trace@, Shaders::ids(r.result), r.released@),
    {
        let mut loads = ShaderLoads::new();
        let mut released: Vec<RenderJob> = Vec::new();
        assert(released@ =~= delete_shaders(Seq::empty()));

        let made = create(ShaderKind::Fragment);
        let ghost mut t = Loading {
            created: seq![(ShaderKind::Fragment, made.0, made.1)],
            requested: Seq::empty(),
            run: None,
            program: None,
            linked: None,
        };
        let mut unlit_frag = match Shader::new(made.0, made.1) {
            Ok(shader) => shader,
            Err(err) => {
                return Finished { result: Err(err), released, trace: Ghost(t) };
            },
        };
        let ghost frag = unlit_frag.id();
        let (sent, asked) = loads.load(data, "unlit.frag", ShaderKind::Fragment, &unlit_frag);
        proof {
            t.requested = seq![(asked@->0, sent)];
        }
        if let Err(err) = sent {
            release_into(&mut unlit_frag, &mut released);
            assert(released@ =~= delete_shaders(seq![frag]));
            return Finished { result: Err(err), released, trace: Ghost(t) };
        }
        let made = create(ShaderKind::Vertex);
        proof {
            t.created = t.created.push((ShaderKind::Vertex, made.0, made.1));
        }
        let mut unlit_vert = match Shader::new(made.0, made.1) {
            Ok(shader) => shader,
            Err(err) => {
                release_into(&mut unlit_frag, &mut released);
                assert(released@ =~= delete_shaders(seq![frag]));
                return Finished { result: Err(err), released, trace: Ghost(t) };
            },
        };
        let ghost vert = unlit_vert.id();
        let (sent, asked) = loads.load(data, "unlit.vert", ShaderKind::Vertex, &unlit_vert);
        proof {
            t.requested = t.requested.push((asked@->0, sent));
        }
        if let Err(err) = sent {
            release_into(&mut unlit_frag, &mut released);
            release_into(&mut unlit_vert, &mut released);
            assert(released@ =~= delete_shaders(seq![frag, vert]));
            return Finished { result: Err(err), released, trace: Ghost(t) };
        }
        assert(loads.awaited() =~= set![frag, vert]);
        let ghost awaited = loads.awaited();
        let (result, events) = loads.collect(build);
        proof {
            t.run = Some(BarrierRun { awaited, events: events@ });
        }
        match result {
            Ok(()) => Finished {
                result: Ok(Shaders { unlit_frag, unlit_vert }),
                released,
                trace: Ghost(t),
            },
            Err(err) => {
                release_into(&mut unlit_frag, &mut released);
                release_into(&mut unlit_vert, &mut released);
                assert(released@ =~= delete_shaders(seq![frag, vert]));
                Finished { result: Err(err), released, trace: Ghost(t) }
            },
        }
    }
}

/// The error for a program called `name` whose linking failed with `err`.
pub fn link_failure(name: &str, err: &GenericError) -> (r: GenericError)
    ensures
        leaf_error("shader program '"@ + name@ + "': "@ + err.text(), r),
{
    let mut message = String::from_str("shader program '");
    message.append(name);
    message.append("': ");
    let text = err.to_text();
    message.append(text.as_str());
    GenericError::from(message)
}

/// Whether the loading of the shaders that `t` holds came to its end with
/// every source built.
pub open spec fn shaders_built(t: Loading) -> bool {
    &&& t.created.len() == 2
    &&& t.requested.len() == 2
    &&& t.run matches Some(run)
    &&& run.end().is_complete()
}

/// The part of `t` that is the loading of the shaders.
pub open spec fn shaders_part(t: Loading) -> Loading {
    Loading { program: None, linked: None, ..t }
}

/// Whether `t` holds what `create_program` and `link` returned: the
/// program is what `create_program` gave, and the linking came to what
/// `link` gave for the program and its two shaders, the vertex shader
/// first.
pub open spec fn programs_traced<P: Fn() -> (u32, u32), L: Fn(u32, Vec<u32>) -> Result<
    (),
    GenericError,
>>(create_program: &P, link: &L, t: Loading) -> bool {
    &&& t.program matches Some(made) ==> call_ensures(create_program, (), made)
    &&& t.linked matches Some(outcome) ==> (t.program matches Some(made) && exists|
        handed: Vec<u32>,
    |
        handed@ == seq![t.created[1].1, t.created[0].1] && #[trigger] call_ensures(
            link,
            (made.0, handed),
            outcome,
        ))
}

/// What the loading of the programs gives, step by step, for what it asked
/// and got: the shaders are loaded first; where that fails, its error is
/// the result and no program is made or linked. Then the program is made,
/// and linked from the two shaders; the result is the program exactly when
/// the linking succeeds. The shaders are released in any case, and the
/// program where its linking failed. `r` holds the raw name of the program.
pub open spec fn programs_outcome(t: Loading, r: Result<u32, GenericError>, released: Seq<
    RenderJob,
>) -> bool {
    let frag = t.created[0].1;
    let vert = t.created[1].1;
    if !shaders_built(t) {
        &&& t.program is None
        &&& t.linked is None
        &&& r matches Err(e)
        &&& shaders_outcome(t, Err(e), released)
    } else {
        &&& shaders_outcome(shaders_part(t), Ok((frag, vert)), delete_shaders(Seq::empty()))
        &&& t.program matches Some(made)
        &&& if made.0 == 0 {
            &&& t.linked is None
            &&& released == delete_shaders(seq![frag, vert])
            &&& r matches Err(e)
            &&& not_created("can't create shader program"@, made.1, e)
        } else {
            &&& t.linked matches Some(outcome)
            &&& match outcome {
                Ok(_) => {
                    &&& released == delete_shaders(seq![frag, vert])
                    &&& r == Ok::<u32, GenericError>(made.0)
                },
                Err(err) => {
                    &&& released == seq![RenderJob::DeleteProgram(made.0)] + delete_shaders(
                        seq![frag, vert],
                    )
                    &&& r matches Err(e)
                    &&& leaf_error("shader program '"@ + "unlit"@ + "': "@ + err.text(), e)
                },
            }
        }
    }
}

/// All shader programs.
pub struct Programs {
    pub _unlit: Program,
}

impl Programs {
    /// The raw name of the program that a loading gave, or its error.
    pub open spec fn ids(r: Result<Programs, GenericError>) -> Result<u32, GenericError> {
        match r {
            Ok(programs) => Ok(programs._unlit.id()),
            Err(e) => Err(e),
        }
    }

    /// Loads all used shader programs: loads and compiles every shader,
    /// and only then links each program from its shaders. `create_program`
    /// makes a program on the context and returns its raw name, with the
    /// context's error flag where that name is 0; `link` links the program
    /// of a raw name from the shaders of the raw names given.
    pub fn load_all<C, B, P, L>(
        data: &DataLoader,
        create_shader: &C,
        build: &B,
        create_program: &P,
        link: &L,
    ) -> (r: Finished<Programs>) where
        C: Fn(ShaderKind) -> (u32, u32),
        B: Fn(u32, Vec<u8>) -> Result<(), GenericError>,
        P: Fn() -> (u32, u32),
        L: Fn(u32, Vec<u32>) -> Result<(), GenericError>,

        requires
            forall|kind: ShaderKind| call_requires(create_shader, (kind,)),
            forall|id: u32, source: Vec<u8>| call_requires(build, (id, source)),
            call_requires(create_program, ()),
            forall|id: u32, stages: Vec<u32>| call_requires(link, (id, stages)),
        ensures
            shaders_traced(create_shader, build, r.trace@),
            programs_traced(create_program, link, r.trace@),
            programs_outcome(r.trace@, Programs::ids(r.result), r.released@),
    {
        let Finished { result, released, trace } = Shaders::load_all(data, create_shader, build);
        let mut released = released;
        let ghost mut t = trace@;
        let mut shaders = match result {
            Ok(shaders) => shaders,
            Err(err) => {
                return Finished { result: Err(err), released, trace: Ghost(t) };
            },
        };
        let ghost frag = shaders.unlit_frag.id();
        let ghost vert = shaders.unlit_vert.id();
        let ghost shaders_only = t;
        assert(shaders_part(t) == t);
        let made = create_program();
        proof {
            t.program = Some(made);
            assert(shaders_part(t) == shaders_only);
        }
        let mut program = match Program::new(made.0, made.1) {
            Ok(program) => program,
            Err(err) => {
                release_into(&mut shaders.unlit_frag, &mut released);
                release_into(&mut shaders.unlit_vert, &mut released);
                assert(released@ =~= delete_shaders(seq![frag, vert]));
                return Finished { result: Err(err), released, trace: Ghost(t) };
            },
        };
        let mut stages = Vec::new();
        stages.push(shaders.unlit_vert.id);
        stages.push(shaders.unlit_frag.id);
        let ghost handed = stages;
        assert(handed@ =~= seq![vert, frag]);
        let outcome = link(made.0, stages);
        proof {
            t.linked = Some(outcome);
            assert(shaders_part(t) == shaders_only);
            assert(call_ensures(link, (made.0, handed), outcome));
            assert(t.created[0].1 == frag && t.created[1].1 == vert);
            assert(handed@ == seq![t.created[1].1, t.created[0].1]);
            assert(programs_traced(create_program, link, t));
        }
        match outcome {
            Ok(_) => {
                release_into(&mut shaders.unlit_frag, &mut released);
                release_into(&mut shaders.unlit_vert, &mut released);
                assert(released@ =~= delete_shaders(seq![frag, vert]));
                Finished { result: Ok(Programs { _unlit: program }), released, trace: Ghost(t) }
            },
            Err(err) => {
                let e = link_failure("unlit", &err);
                if let Some(job) = program.release() {
                    released.push(job);
                }
                release_into(&mut shaders.unlit_frag, &mut released);
                release_into(&mut shaders.unlit_vert, &mut released);
                assert(released@ =~= seq![RenderJob::DeleteProgram(made.0)] + delete_shaders(
                    seq![frag, vert],
                ));
                Finished { result: Err(e), released, trace: Ghost(t) }
            },
        }
    }
}

} // verus!
