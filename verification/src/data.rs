//! The asset loader: a handle that sends read requests, and the worker that
//! serves them from the archive, one at a time and in the order sent.
//!
//! What a handler returns is the handler's to decide. The handler traits
//! let a handler say which results it may give, and the worker's contract
//! says of each result it reports that it is the handler's own.

use crate::archive::{
    archive_listing, archive_names, archive_open, entry_breaks, entry_broken, entry_by_name,
    entry_content, entry_opens, entry_read, entry_unread, CHUNK_SIZE,
};
use crate::error::{leaf_error, wraps_display, wraps_leaf, GenericError};
use std::io::Cursor;
use std::sync::mpsc::{Receiver, RecvError, SendError, Sender};
use vstd::prelude::*;
use vstd::slice::slice_subrange;
use zip::read::{ZipArchive, ZipFile};
use vstd::string::to_string_from_display_ensures;
use zip::result::{InvalidPassword, ZipError};

verus! {

/// Trait for responding to asynchronous errors.
///
/// A handler says in `error_given` what it makes of the error it is given,
/// so that code which passes an error on can say to whom it went.
pub trait ErrorHandler: 'static + Send {
    /// Whether `on_error` may be called with `err`. A handler that does not
    /// say takes any error.
    open spec fn error_given(&self, err: GenericError) -> bool {
        true
    }

    fn on_error(self: Box<Self>, err: GenericError)
        ensures
            self.error_given(err),
    ;
}

/// Trait for responding to asynchronous read events.
///
/// `on_read` is called for each chunk as it arrives, then exactly one of
/// `on_eof` and `on_error` ends the request. A handler that fails in
/// `on_read` is called no more.
///
/// What the callbacks return is the handler's to decide. A handler says
/// which results it may give in `read_result` and `eof_result`, so that
/// code which passes a result on can say whose result it is.
pub trait ReadHandler: ErrorHandler {
    /// Whether `r` is a result that `on_eof` may give. A handler that does
    /// not say may give any.
    open spec fn eof_result(&self, r: Result<(), GenericError>) -> bool {
        true
    }

    /// Whether `on_read` may give `r` for the chunk `buf` and leave the
    /// handler as `after`. A handler that does not say may give any result
    /// and change in any way.
    open spec fn read_result(
        &self,
        buf: Seq<u8>,
        r: Result<(), GenericError>,
        after: &Self,
    ) -> bool {
        true
    }

    fn on_eof(self: Box<Self>) -> (r: Result<(), GenericError>)
        ensures
            self.eof_result(r),
    ;

    fn on_read(&mut self, buf: &[u8]) -> (r: Result<(), GenericError>)
        ensures
            old(self).read_result(buf@, r, &*final(self)),
    ;
}

/// Trait for responding to the reading of an entire file.
///
/// A handler says which results it may give in `read_all_result`.
pub trait ReadAllHandler: ErrorHandler {
    /// Whether `r` is a result that `on_read_all` may give for the file
    /// contents `buf`. A handler that does not say may give any.
    open spec fn read_all_result(&self, buf: Seq<u8>, r: Result<(), GenericError>) -> bool {
        true
    }

    fn on_read_all(self: Box<Self>, buf: Vec<u8>) -> (r: Result<(), GenericError>)
        ensures
            self.read_all_result(buf@, r),
    ;
}

/// One call of `on_read`: the chunk that was given, and the error if the
/// handler refused it.
pub struct Fed {
    pub chunk: Seq<u8>,
    pub refused: Option<GenericError>,
}

/// How the calls on a handler end.
pub enum Ending {
    /// With `on_eof`, which gave this result.
    Eof(Result<(), GenericError>),
    /// With `on_error`, which was given this error.
    Failed(GenericError),
    /// With no terminal callback: the handler is still to be ended.
    Open,
}

/// What `on_read` gave, as a call records it.
pub open spec fn fed_of(chunk: Seq<u8>, r: Result<(), GenericError>) -> Fed {
    Fed {
        chunk,
        refused: match r {
            Ok(_) => None,
            Err(e) => Some(e),
        },
    }
}

/// Whether the handler `h` may go through the calls `calls` of `on_read`
/// in order, giving for each chunk what the call records, and then end in
/// `ending`.
pub open spec fn admits_from<H: ReadHandler>(h: H, calls: Seq<Fed>, ending: Ending) -> bool
    decreases calls.len(),
{
    if calls.len() == 0 {
        match ending {
            Ending::Eof(r) => h.eof_result(r),
            Ending::Failed(err) => h.error_given(err),
            Ending::Open => true,
        }
    } else {
        exists|r: Result<(), GenericError>, after: H|
            #[trigger] h.read_result(calls[0].chunk, r, &after) && fed_of(calls[0].chunk, r)
                == calls[0] && admits_from(after, calls.skip(1), ending)
    }
}

/// A [`ReadHandler`] as the worker holds it: behind a box, whatever its
/// type. Every `ReadHandler` is one, and each call is passed on to it.
pub trait BoxedReadHandler: 'static + Send {
    /// Whether the handler may go through `calls` in order and then end in
    /// `ending`.
    spec fn admits(&self, calls: Seq<Fed>, ending: Ending) -> bool;

    fn fail(self: Box<Self>, err: GenericError)
        ensures
            self.admits(Seq::empty(), Ending::Failed(err)),
    ;

    fn finish(self: Box<Self>) -> (r: Result<(), GenericError>)
        ensures
            self.admits(Seq::empty(), Ending::Eof(r)),
    ;

    fn feed(&mut self, buf: &[u8]) -> (r: Result<(), GenericError>)
        ensures
            final(self).admits(Seq::empty(), Ending::Open),
            forall|rest: Seq<Fed>, ending: Ending| #[trigger]
                final(self).admits(rest, ending) ==> old(self).admits(
                    seq![fed_of(buf@, r)] + rest,
                    ending,
                ),
    ;
}

impl<H: ReadHandler> BoxedReadHandler for H {
    /// What the boxed handler admits is what the handler admits.
    open spec fn admits(&self, calls: Seq<Fed>, ending: Ending) -> bool {
        admits_from(*self, calls, ending)
    }

    fn fail(self: Box<Self>, err: GenericError) {
        self.on_error(err)
    }

    fn finish(self: Box<Self>) -> (r: Result<(), GenericError>) {
        self.on_eof()
    }

    fn feed(&mut self, buf: &[u8]) -> (r: Result<(), GenericError>) {
        let r = self.on_read(buf);
        proof {
            let before = *old(self);
            let after = *self;
            assert(before.read_result(buf@, r, &after));
            assert forall|rest: Seq<Fed>, ending: Ending| #[trigger]
                admits_from(after, rest, ending) implies admits_from(
                before,
                seq![fed_of(buf@, r)] + rest,
                ending,
            ) by {
                let all = seq![fed_of(buf@, r)] + rest;
                assert(all[0] == fed_of(buf@, r));
                assert(all.skip(1) =~= rest);
                assert(before.read_result(all[0].chunk, r, &after));
            }
        }
        r
    }
}

/// A [`ReadAllHandler`] as the buffering adapter holds it: behind a box,
/// whatever its type. Every `ReadAllHandler` is one, and each call is
/// passed on to it.
pub trait BoxedReadAllHandler: 'static + Send {
    /// Whether `fail` may be called with `err`.
    spec fn fail_given(&self, err: GenericError) -> bool;

    /// Whether `r` is a result that `finish` may give for the file
    /// contents `buf`.
    spec fn finish_result(&self, buf: Seq<u8>, r: Result<(), GenericError>) -> bool;

    fn fail(self: Box<Self>, err: GenericError)
        ensures
            self.fail_given(err),
    ;

    fn finish(self: Box<Self>, buf: Vec<u8>) -> (r: Result<(), GenericError>)
        ensures
            self.finish_result(buf@, r),
    ;
}

impl<H: ReadAllHandler> BoxedReadAllHandler for H {
    /// What `fail` is given is what the handler's `on_error` is given.
    open spec fn fail_given(&self, err: GenericError) -> bool {
        self.error_given(err)
    }

    /// What `finish` gives is what the handler's `on_read_all` gives for
    /// the same contents.
    open spec fn finish_result(&self, buf: Seq<u8>, r: Result<(), GenericError>) -> bool {
        self.read_all_result(buf, r)
    }

    fn fail(self: Box<Self>, err: GenericError) {
        self.on_error(err)
    }

    fn finish(self: Box<Self>, buf: Vec<u8>) -> (r: Result<(), GenericError>) {
        self.on_read_all(buf)
    }
}

/// Request message sent to the worker.
pub enum Request {
    Load { name: String, handler: Box<dyn BoxedReadHandler> },
    Quit,
}

impl Request {
    /// The request to read the entry `name` into `handler`: what the boxed
    /// handler admits is what `handler` admits.
    pub fn load<H: ReadHandler>(name: &str, handler: H) -> (r: Request)
        ensures
            r matches Request::Load { name: requested, handler: boxed } && requested@ == name@ && (
            forall|calls: Seq<Fed>, ending: Ending| #[trigger]
                boxed.admits(calls, ending) == admits_from(handler, calls, ending)),
    {
        Request::Load { name: String::from_str(name), handler: Box::new(handler) }
    }
}

/// Whether a buffer that holds `held` bytes may grow by `more` under `limit`.
pub open spec fn fits(limit: Option<usize>, held: nat, more: nat) -> bool {
    limit matches Some(l) ==> held + more <= l
}

/// What a buffering adapter under `limit` holds after it has been offered
/// `chunks` in order, starting from `held`: `None` once a chunk did not fit.
pub open spec fn buffer_chunks(limit: Option<usize>, held: Seq<u8>, chunks: Seq<Seq<u8>>) -> Option<
    Seq<u8>,
>
    decreases chunks.len(),
{
    if chunks.len() == 0 {
        Some(held)
    } else if fits(limit, held.len(), chunks[0].len()) {
        buffer_chunks(limit, held + chunks[0], chunks.skip(1))
    } else {
        None
    }
}

/// A bounded buffered read succeeds exactly when the whole response fits
/// the bound, and then yields the response unchanged; whether it succeeds
/// or not, no chunk is taken in that would carry the buffer past the bound.
pub proof fn lemma_buffered_read_bounded(limit: usize, held: Seq<u8>, chunks: Seq<Seq<u8>>)
    requires
        held.len() <= limit,
    ensures
        buffer_chunks(Some(limit), held, chunks) is Some <==> held.len() + chunks.flatten().len()
            <= limit,
        buffer_chunks(Some(limit), held, chunks) matches Some(data) ==> data == held
            + chunks.flatten() && data.len() <= limit,
    decreases chunks.len(),
{
    if chunks.len() == 0 {
        assert(chunks.flatten() =~= Seq::<u8>::empty());
        assert(held + chunks.flatten() =~= held);
    } else {
        let first = chunks[0];
        let rest = chunks.skip(1);
        assert(chunks.flatten() =~= first + rest.flatten());
        if fits(Some(limit), held.len(), first.len()) {
            lemma_buffered_read_bounded(limit, held + first, rest);
            assert((held + first) + rest.flatten() =~= held + chunks.flatten());
        }
    }
}

/// Without a bound a buffered read always succeeds and yields the response
/// unchanged.
pub proof fn lemma_buffered_read_unbounded(held: Seq<u8>, chunks: Seq<Seq<u8>>)
    ensures
        buffer_chunks(None, held, chunks) == Some(held + chunks.flatten()),
    decreases chunks.len(),
{
    if chunks.len() == 0 {
        assert(chunks.flatten() =~= Seq::<u8>::empty());
        assert(held + chunks.flatten() =~= held);
    } else {
        let first = chunks[0];
        let rest = chunks.skip(1);
        assert(chunks.flatten() =~= first + rest.flatten());
        lemma_buffered_read_unbounded(held + first, rest);
        assert((held + first) + rest.flatten() =~= held + chunks.flatten());
    }
}

/// Wrapper for reading the full contents of a data file: collects the
/// chunks of a streamed read and hands the whole to a [`ReadAllHandler`].
/// With a maximum length it fails on the first chunk that would carry the
/// buffer past it, before taking that chunk in.
pub struct ReadAllWrapper {
    data: Vec<u8>,
    inner: Box<dyn BoxedReadAllHandler>,
    max_len: Option<usize>,
}

impl ReadAllWrapper {
    /// The bytes collected so far.
    pub closed spec fn buffered(&self) -> Seq<u8> {
        self.data@
    }

    /// The maximum length, if there is one.
    pub closed spec fn limit(&self) -> Option<usize> {
        self.max_len
    }

    /// The handler that the adapter wraps.
    pub closed spec fn handler(&self) -> Box<dyn BoxedReadAllHandler> {
        self.inner
    }

    /// Whether `r` is a result that the handler which the adapter wraps
    /// may give for the file contents `buf`.
    pub open spec fn handler_result(&self, buf: Seq<u8>, r: Result<(), GenericError>) -> bool {
        self.handler().finish_result(buf, r)
    }

    /// The buffer is within the maximum length.
    pub open spec fn wf(&self) -> bool {
        fits(self.limit(), self.buffered().len(), 0)
    }

    /// An adapter with an empty buffer around `handler`.
    pub fn new<H: ReadAllHandler>(handler: H, max_len: Option<usize>) -> (r: ReadAllWrapper)
        ensures
            r.buffered() == Seq::<u8>::empty(),
            r.limit() == max_len,
            r.wf(),
            forall|buf: Seq<u8>, given: Result<(), GenericError>|
                #[trigger] r.handler().finish_result(buf, given) == handler.read_all_result(
                    buf,
                    given,
                ),
            forall|err: GenericError| #[trigger]
                r.handler().fail_given(err) == handler.error_given(err),
    {
        ReadAllWrapper { data: Vec::new(), inner: Box::new(handler), max_len }
    }

    /// The number of bytes collected so far.
    pub fn len(&self) -> (n: usize)
        ensures
            n == self.buffered().len(),
    {
        self.data.len()
    }
}

impl ErrorHandler for ReadAllWrapper {
    /// The adapter is given what the handler that it wraps is given.
    open spec fn error_given(&self, err: GenericError) -> bool {
        self.handler().fail_given(err)
    }

    fn on_error(self: Box<Self>, err: GenericError) {
        let this = *self;
        this.inner.fail(err)
    }
}

impl ReadHandler for ReadAllWrapper {
    /// At the end of the file the adapter gives what the handler that it
    /// wraps gives for the bytes collected.
    open spec fn eof_result(&self, r: Result<(), GenericError>) -> bool {
        self.handler_result(self.buffered(), r)
    }

    /// The adapter takes a chunk exactly when it fits the maximum length,
    /// and then holds it behind what it held; any other chunk it refuses
    /// as too large.
    open spec fn read_result(
        &self,
        buf: Seq<u8>,
        r: Result<(), GenericError>,
        after: &Self,
    ) -> bool {
        &&& r is Ok <==> fits(self.limit(), self.buffered().len(), buf.len())
        &&& r is Ok ==> after.buffered() == self.buffered() + buf
        &&& r matches Err(e) ==> after.buffered() == self.buffered() && leaf_error(
            "maximum file size exceeded"@,
            e,
        )
        &&& after.limit() == self.limit()
        &&& after.handler() == self.handler()
    }

    fn on_eof(self: Box<Self>) -> (r: Result<(), GenericError>) {
        let this = *self;
        this.inner.finish(this.data)
    }

    fn on_read(&mut self, buf: &[u8]) -> (r: Result<(), GenericError>)
        ensures
            final(self).limit() == old(self).limit(),
            r is Ok <==> fits(old(self).limit(), old(self).buffered().len(), buf@.len()),
            r is Ok ==> final(self).buffered() == old(self).buffered() + buf@,
            r matches Err(e) ==> final(self).buffered() == old(self).buffered() && leaf_error(
                "maximum file size exceeded"@,
                e,
            ),
            buffer_chunks(old(self).limit(), old(self).buffered(), seq![buf@]) == (if r is Ok {
                Some(final(self).buffered())
            } else {
                None
            }),
            old(self).wf() ==> final(self).wf(),
            final(self).handler() == old(self).handler(),
    {
        proof {
            let one = seq![buf@];
            reveal_with_fuel(buffer_chunks, 2);
            assert(one[0] == buf@);
            assert(one.skip(1).len() == 0);
        }
        if let Some(max_len) = self.max_len {
            if self.data.len() > max_len || buf.len() > max_len - self.data.len() {
                return Err(GenericError::from("maximum file size exceeded"));
            }
        }
        self.data.extend_from_slice(buf);
        assert(self.limit() == old(self).limit());
        assert(self.handler() == old(self).handler());
        assert(self.buffered() == old(self).buffered() + buf@);
        Ok(())
    }
}

/// The callback that ends a request.
pub enum Terminal {
    /// `on_eof`.
    Eof,
    /// `on_error`, with the error it was given.
    Error(GenericError),
}

/// The calls made on a request's handler while the request was served.
pub struct Delivery {
    /// What the entry held when it was opened; empty where it was not opened.
    pub stream: Seq<u8>,
    /// The buffers given to `on_read`, in order.
    pub chunks: Seq<Seq<u8>>,
    /// The callback that ended the request, made after every `on_read`.
    pub terminal: Option<Terminal>,
}

/// How the serving of a request ended.
pub enum LoadOutcome {
    /// The entry could not be opened, for the reason given as text. The
    /// handler got `on_error`.
    OpenFailed(String),
    /// A read of the entry failed, for the reason given as text. The
    /// handler got `on_error`.
    ReadFailed(String),
    /// The handler's `on_read` failed with this error. The read was given
    /// up and the handler is handed back as that call left it, with no
    /// further callback made on it, to be dropped.
    Abandoned(GenericError, Box<dyn BoxedReadHandler>),
    /// The whole entry was read. The handler got `on_eof`, which returned
    /// this.
    Completed(Result<(), GenericError>),
}

/// What an archive holds under a name.
pub struct Held {
    /// Whether the archive opens the entry.
    pub opens: bool,
    /// What the entry hands out when it is read.
    pub content: Seq<u8>,
    /// Whether the reading of the entry ends in a failed read.
    pub breaks: bool,
}

/// The calls of `on_read` that hand on `chunks` in order, of which the
/// handler accepts every chunk but, where `refused` holds an error, the
/// last, which it refuses with that error.
pub open spec fn history(chunks: Seq<Seq<u8>>, refused: Option<GenericError>) -> Seq<Fed> {
    Seq::new(
        chunks.len(),
        |i: int|
            Fed {
                chunk: chunks[i],
                refused: if i == chunks.len() - 1 {
                    refused
                } else {
                    None
                },
            },
    )
}

/// The calls of `on_read` that a request went through.
pub open spec fn calls_of(outcome: LoadOutcome, d: Delivery) -> Seq<Fed> {
    history(
        d.chunks,
        match outcome {
            LoadOutcome::Abandoned(e, _) => Some(e),
            _ => None,
        },
    )
}

/// How the calls on the handler of a request ended.
pub open spec fn ending_of(outcome: LoadOutcome, d: Delivery) -> Ending {
    match outcome {
        LoadOutcome::Completed(r) => Ending::Eof(r),
        LoadOutcome::Abandoned(_, _) => Ending::Open,
        _ => match d.terminal {
            Some(Terminal::Error(e)) => Ending::Failed(e),
            _ => Ending::Open,
        },
    }
}

/// Whether `handler` was given the calls of the request and no other: it
/// went through the calls of `on_read` and ended as the outcome says, each
/// result being its own and the error given to `on_error` being the one
/// delivered; and a handler that is handed back is `handler` as those calls
/// left it.
pub open spec fn handled(
    handler: Box<dyn BoxedReadHandler>,
    outcome: LoadOutcome,
    d: Delivery,
) -> bool {
    &&& handler.admits(calls_of(outcome, d), ending_of(outcome, d))
    &&& outcome matches LoadOutcome::Abandoned(_, back) ==> forall|
        rest: Seq<Fed>,
        ending: Ending,
    | #[trigger]
        back.admits(rest, ending) ==> handler.admits(calls_of(outcome, d) + rest, ending)
}

/// Whether a request that ended in `outcome` with the delivery `d` follows
/// what the archive holds under the name: it fails at the opening exactly
/// when the archive does not open the entry; the bytes to hand on are the
/// entry's content; it ends in a failed read only if the entry breaks, and
/// then after all of the content was handed on; and it comes to the end of
/// the file only if the entry does not break.
pub open spec fn follows(held: Held, outcome: LoadOutcome, d: Delivery) -> bool {
    &&& outcome is OpenFailed <==> !held.opens
    &&& held.opens ==> d.stream == held.content
    &&& outcome is ReadFailed ==> held.breaks && d.chunks.flatten() == d.stream
    &&& outcome is Completed ==> !held.breaks
}

/// Whether `e` is the error that a handler is given for a failure of the
/// archive: `what` under the entry's name, with the reason as its source.
pub open spec fn archive_failure(
    name: Seq<char>,
    what: Seq<char>,
    cause: Seq<char>,
    e: GenericError,
) -> bool {
    wraps_leaf(name + what, e) && e.source->0.message@ == cause
}

/// Whether `d` is how a request for `name` is served when it ends in
/// `outcome`: the chunks are non-empty pieces of the entry, none larger than
/// the scratch buffer, that follow one another from its start; an opened
/// entry that never fails is handed out whole and then `on_eof` is called;
/// a failure of the archive goes to `on_error` under the entry's name, with
/// the reason that the outcome holds; and after a failure of the handler
/// nothing more is called.
pub open spec fn delivered(name: Seq<char>, outcome: LoadOutcome, d: Delivery) -> bool {
    &&& forall|i: int| 0 <= i < d.chunks.len() ==> 0 < #[trigger] d.chunks[i].len() <= CHUNK_SIZE
    &&& d.chunks.flatten().len() <= d.stream.len()
    &&& d.chunks.flatten() == d.stream.subrange(0, d.chunks.flatten().len() as int)
    &&& match outcome {
        LoadOutcome::OpenFailed(cause) => {
            &&& d.chunks.len() == 0
            &&& d.terminal matches Some(Terminal::Error(e))
            &&& archive_failure(name, ": open failed"@, cause@, e)
        },
        LoadOutcome::ReadFailed(cause) => {
            &&& d.terminal matches Some(Terminal::Error(e))
            &&& archive_failure(name, ": read failed"@, cause@, e)
        },
        LoadOutcome::Abandoned(_, _) => {
            &&& d.chunks.len() > 0
            &&& d.terminal is None
        },
        LoadOutcome::Completed(_) => {
            &&& d.chunks.flatten() == d.stream
            &&& d.terminal == Some(Terminal::Eof)
        },
    }
}

/// What the worker reports of a request it has served.
pub struct LoadReport {
    /// The entry that was asked for.
    pub name: String,
    /// How the serving ended.
    pub outcome: LoadOutcome,
    /// The calls that were made on the handler.
    pub delivery: Ghost<Delivery>,
}

impl LoadReport {
    /// The report is consistent: its delivery is how a request for its
    /// entry is served when it ends in its outcome.
    pub open spec fn wf(self) -> bool {
        delivered(self.name@, self.outcome, self.delivery@)
    }

    /// The report is that of a request for `name` into `handler`, served
    /// from an archive that holds `held` under that name: the request
    /// follows what the archive holds, and the handler was given the calls
    /// of the delivery and no other.
    pub open spec fn serves(
        self,
        name: String,
        handler: Box<dyn BoxedReadHandler>,
        held: Held,
    ) -> bool {
        &&& self.name == name
        &&& self.wf()
        &&& follows(held, self.outcome, self.delivery@)
        &&& handled(handler, self.outcome, self.delivery@)
    }

    /// The number of terminal callbacks that the handler got.
    pub open spec fn terminal_callbacks(self) -> nat {
        match self.delivery@.terminal {
            Some(_) => 1,
            None => 0,
        }
    }
}

/// What a buffering adapter goes through when it is given `chunks` in
/// order and accepts every one but, where `refused` holds an error, the
/// last. If it accepts all, they fit its maximum length together with what
/// it held, it comes to the end of the file with what the handler that it
/// wraps gives for the whole, and it passes an error on to that handler. If
/// it refuses the last, that is because the last does not fit, and the
/// error is that the file is too large.
pub proof fn lemma_adapter_admits(
    w: ReadAllWrapper,
    chunks: Seq<Seq<u8>>,
    refused: Option<GenericError>,
    ending: Ending,
)
    requires
        w.wf(),
        admits_from(w, history(chunks, refused), ending),
    ensures
        chunks.len() > 0 && refused is Some ==> !fits(
            w.limit(),
            w.buffered().len(),
            chunks.flatten().len(),
        ) && leaf_error("maximum file size exceeded"@, refused->0),
        chunks.len() == 0 || refused is None ==> fits(
            w.limit(),
            w.buffered().len(),
            chunks.flatten().len(),
        ) && match ending {
            Ending::Eof(res) => w.handler_result(w.buffered() + chunks.flatten(), res),
            Ending::Failed(err) => w.handler().fail_given(err),
            Ending::Open => true,
        },
    decreases chunks.len(),
{
    let calls = history(chunks, refused);
    if chunks.len() == 0 {
        assert(chunks.flatten() =~= Seq::<u8>::empty());
        assert(w.buffered() + chunks.flatten() =~= w.buffered());
    } else {
        let first = chunks[0];
        let rest = chunks.skip(1);
        assert(chunks.flatten() =~= first + rest.flatten());
        assert(calls[0].chunk == first);
        let (r, after) = choose|r: Result<(), GenericError>, after: ReadAllWrapper|
            #[trigger] w.read_result(calls[0].chunk, r, &after) && fed_of(calls[0].chunk, r)
                == calls[0] && admits_from(after, calls.skip(1), ending);
        if chunks.len() == 1 {
            assert(calls.skip(1) =~= history(rest, None));
            assert(rest.flatten() =~= Seq::<u8>::empty());
            assert(first + rest.flatten() =~= first);
            if r is Ok {
                lemma_adapter_admits(after, rest, None, ending);
                assert(after.buffered() + rest.flatten() =~= w.buffered() + chunks.flatten());
            }
        } else {
            assert(calls.skip(1) =~= history(rest, refused));
            assert(calls[0].refused is None);
            lemma_adapter_admits(after, rest, refused, ending);
            assert((w.buffered() + first) + rest.flatten() =~= w.buffered() + chunks.flatten());
        }
    }
}

/// An entry that opens and is longer than the maximum length of a fresh
/// buffering adapter is given up with `maximum file size exceeded`, whether
/// its reading would have ended well or not, and the handler that the
/// adapter wraps is not called at all.
pub proof fn lemma_oversized_entry_is_refused(report: LoadReport, w: ReadAllWrapper, held: Held)
    requires
        report.wf(),
        follows(held, report.outcome, report.delivery@),
        admits_from(w, calls_of(report.outcome, report.delivery@), ending_of(
            report.outcome,
            report.delivery@,
        )),
        held.opens,
        w.wf(),
        w.buffered().len() == 0,
        w.limit() matches Some(limit) && held.content.len() > limit,
    ensures
        report.outcome matches LoadOutcome::Abandoned(e, _) && leaf_error(
            "maximum file size exceeded"@,
            e,
        ),
        report.terminal_callbacks() == 0,
{
    let d = report.delivery@;
    lemma_adapter_admits(
        w,
        d.chunks,
        match report.outcome {
            LoadOutcome::Abandoned(e, _) => Some(e),
            _ => None,
        },
        ending_of(report.outcome, d),
    );
}

/// An entry that opens and fits the maximum length of a fresh buffering
/// adapter is never refused. If its reading does not break, the handler
/// that the adapter wraps is given the whole content, once, and the request
/// ends with its result; if it breaks, that handler is given the error.
pub proof fn lemma_fitting_entry_is_delivered(report: LoadReport, w: ReadAllWrapper, held: Held)
    requires
        report.wf(),
        follows(held, report.outcome, report.delivery@),
        admits_from(w, calls_of(report.outcome, report.delivery@), ending_of(
            report.outcome,
            report.delivery@,
        )),
        held.opens,
        w.wf(),
        w.buffered().len() == 0,
        fits(w.limit(), 0, held.content.len()),
    ensures
        report.outcome is Completed <==> !held.breaks,
        report.outcome is ReadFailed <==> held.breaks,
        report.outcome matches LoadOutcome::Completed(res) ==> w.handler_result(held.content, res),
        report.outcome is ReadFailed ==> (report.delivery@.terminal matches Some(
            Terminal::Error(e),
        ) && w.handler().fail_given(e)),
{
    let d = report.delivery@;
    lemma_adapter_admits(
        w,
        d.chunks,
        match report.outcome {
            LoadOutcome::Abandoned(e, _) => Some(e),
            _ => None,
        },
        ending_of(report.outcome, d),
    );
    assert(w.buffered() =~= Seq::<u8>::empty());
    assert(w.buffered() + d.chunks.flatten() =~= d.chunks.flatten());
}

/// A request for an entry that opens, whose handler refuses no chunk,
/// hands on the whole content of the entry, and then ends with `on_eof` if
/// the reading does not break and with `on_error` if it does. An entry
/// without content is never refused.
pub proof fn lemma_served_entry_ends(report: LoadReport, held: Held)
    requires
        report.wf(),
        follows(held, report.outcome, report.delivery@),
        held.opens,
    ensures
        held.content.len() == 0 ==> !(report.outcome is Abandoned),
        !(report.outcome is Abandoned) ==> {
            &&& report.delivery@.chunks.flatten() == held.content
            &&& report.outcome is Completed <==> !held.breaks
            &&& report.outcome is ReadFailed <==> held.breaks
            &&& report.terminal_callbacks() == 1
        },
{
    let d = report.delivery@;
    if report.outcome is Abandoned {
        assert(d.chunks.flatten() =~= d.chunks[0] + d.chunks.skip(1).flatten());
    }
}

/// Every request that is served gets exactly one terminal callback, unless
/// its own handler failed in `on_read`, and then it gets none.
pub proof fn lemma_one_terminal_callback(report: LoadReport)
    requires
        report.wf(),
    ensures
        report.terminal_callbacks() == (if report.outcome is Abandoned {
            0nat
        } else {
            1nat
        }),
{
}

/// What became of a request that was handed to the channel: if it could
/// not be sent, the error names the entry and has the channel's error as
/// its source.
pub open spec fn request_sent(name: Seq<char>, r: Result<(), GenericError>) -> bool {
    r matches Err(e) ==> wraps_leaf(name + ": open request failed"@, e)
}

/// The result of a request for `name`, given what the send on the channel
/// returned.
pub fn request_outcome<T>(name: &str, sent: Result<(), SendError<T>>) -> (r: Result<
    (),
    GenericError,
>)
    ensures
        r is Ok <==> sent is Ok,
        r matches Err(e) ==> sent is Err && wraps_display(
            name@ + ": open request failed"@,
            &sent->Err_0,
            e,
        ),
        request_sent(name@, r),
{
    match sent {
        Ok(()) => Ok(()),
        Err(err) => Err(GenericError::about(name, ": open request failed", &err)),
    }
}

/// Loads data from the game's main archive through a worker.
pub struct DataLoader {
    request_sender: Sender<Request>,
}

impl DataLoader {
    /// The loader and its worker for an archive, given what opening the
    /// archive came to. `label` names the archive in the error. The worker
    /// serves the entries that the archive lists.
    pub fn with_archive(label: &str, opened: Result<ZipArchive<Cursor<Vec<u8>>>, ZipError>) -> (r:
        Result<(DataLoader, Worker), GenericError>)
        ensures
            match r {
                Ok(made) => opened matches Ok(archive) && made.1.entries() == archive_names(
                    archive,
                ),
                Err(e) => opened is Err && wraps_display(
                    label@ + ": open zip failed"@,
                    &opened->Err_0,
                    e,
                ),
            },
    {
        let zip = match opened {
            Ok(zip) => zip,
            Err(err) => {
                return Err(GenericError::about(label, ": open zip failed", &err));
            },
        };
        let (request_sender, request_receiver) = std::sync::mpsc::channel();
        let worker = Worker { buf: [0u8; 1024], request_receiver, zip };
        Ok((DataLoader { request_sender }, worker))
    }

    /// Opens the archive held in `archive` and makes the loader and the
    /// worker that serves it. Succeeds exactly on the bytes that are an
    /// archive with a listing, and the worker then serves the entries
    /// listed; on any other bytes it fails with an error that names the
    /// archive by `label`.
    pub fn open(label: &str, archive: Vec<u8>) -> (r: Result<(DataLoader, Worker), GenericError>)
        ensures
            match r {
                Ok(made) => archive_listing(archive@) == Some(made.1.entries()),
                Err(e) => archive_listing(archive@) is None && wraps_leaf(
                    label@ + ": open zip failed"@,
                    e,
                ),
            },
    {
        DataLoader::with_archive(label, archive_open(archive))
    }

    /// Reads the specified data file. The worker invokes the handler in a
    /// loop until reading is finished. Fails only when the worker is gone.
    pub fn read<H: ReadHandler>(&self, name: &str, handler: H) -> (r: Result<(), GenericError>)
        ensures
            request_sent(name@, r),
    {
        request_outcome(name, self.request_sender.send(Request::load(name, handler)))
    }

    /// Reads the specified data file. The worker invokes the handler when
    /// reading is finished, or fails the request as soon as the file proves
    /// longer than `max_len`.
    pub fn read_all<H: ReadAllHandler>(&self, name: &str, handler: H, max_len: Option<usize>) -> (r:
        Result<(), GenericError>)
        ensures
            request_sent(name@, r),
    {
        self.read(name, ReadAllWrapper::new(handler, max_len))
    }

    /// Tells the worker to stop once it has served what was sent before.
    /// Nothing is done if the worker is gone already.
    pub fn quit(&self) {
        let _ = self.request_sender.send(Request::Quit);
    }
}

/// How many of `requests` a worker serves when it takes them in order:
/// those that come before the first request to stop.
pub open spec fn served_before_quit(requests: Seq<Request>) -> nat
    decreases requests.len(),
{
    if requests.len() == 0 || requests[0] is Quit {
        0
    } else {
        1 + served_before_quit(requests.skip(1))
    }
}

/// What the worker did with one request.
pub enum Served {
    /// A load request, served to its end.
    Loaded(LoadReport),
    /// The request to stop.
    Quit,
    /// Every loader handle is gone and no request is left.
    Disconnected,
}

/// The worker's side of the loader: the archive, a scratch buffer and the
/// receiving end of the request channel.
pub struct Worker {
    buf: [u8; CHUNK_SIZE],
    request_receiver: Receiver<Request>,
    zip: ZipArchive<Cursor<Vec<u8>>>,
}

/// The entry that was asked for, or the reason why there is none, as text,
/// from what the archive's lookup returned.
pub fn found_entry<'a>(found: Result<Result<ZipFile<'a>, InvalidPassword>, ZipError>) -> (r: Result<
    ZipFile<'a>,
    String,
>)
    ensures
        match found {
            Ok(Ok(entry)) => r == Ok::<ZipFile<'a>, String>(entry),
            Ok(Err(invalid)) => r matches Err(cause) && to_string_from_display_ensures(
                &invalid,
                cause,
            ),
            Err(err) => r matches Err(cause) && to_string_from_display_ensures(&err, cause),
        },
{
    match found {
        Ok(Ok(entry)) => Ok(entry),
        Ok(Err(invalid)) => Err(invalid.to_string()),
        Err(err) => Err(err.to_string()),
    }
}

/// What a read of an entry came to.
pub enum ReadStep {
    /// This many bytes were read into the buffer; at least one.
    Chunk(usize),
    /// The entry is exhausted.
    End,
    /// The read failed, for the reason given as text.
    Failed(String),
}

/// What the worker makes of what a read of an entry returned.
pub fn read_step(read: Result<usize, std::io::Error>) -> (r: ReadStep)
    ensures
        match read {
            Ok(n) => r == (if n == 0 {
                ReadStep::End
            } else {
                ReadStep::Chunk(n)
            }),
            Err(err) => r matches ReadStep::Failed(cause) && to_string_from_display_ensures(
                &err,
                cause,
            ),
        },
{
    match read {
        Ok(n) => if n == 0 {
            ReadStep::End
        } else {
            ReadStep::Chunk(n)
        },
        Err(err) => ReadStep::Failed(err.to_string()),
    }
}

/// Hands an open entry to the handler chunk by chunk, up to its end or the
/// first failure.
fn stream_entry(
    entry: &mut ZipFile<'_>,
    buf: &mut [u8; CHUNK_SIZE],
    name: &str,
    handler: Box<dyn BoxedReadHandler>,
) -> (r: (LoadOutcome, Ghost<Delivery>))
    ensures
        r.1@.stream == entry_unread(*old(entry)),
        !(r.0 is OpenFailed),
        delivered(name@, r.0, r.1@),
        r.0 is ReadFailed ==> entry_broken(*old(entry)) && r.1@.chunks.flatten() == r.1@.stream,
        r.0 is Completed ==> !entry_broken(*old(entry)),
        handled(handler, r.0, r.1@),
{
    let ghost first = handler;
    let mut serving = handler;
    let ghost stream = entry_unread(*entry);
    let ghost mut chunks: Seq<Seq<u8>> = Seq::empty();
    assert(chunks.flatten() =~= Seq::<u8>::empty());
    assert forall|rest: Seq<Fed>, ending: Ending| #[trigger]
        serving.admits(rest, ending) implies first.admits(history(chunks, None) + rest, ending) by {
        assert(history(chunks, None) + rest =~= rest);
    }
    loop
        invariant
            stream == entry_unread(*old(entry)),
            entry_broken(*entry) == entry_broken(*old(entry)),
            chunks.flatten() + entry_unread(*entry) == stream,
            forall|i: int| 0 <= i < chunks.len() ==> 0 < #[trigger] chunks[i].len() <= CHUNK_SIZE,
            first == handler,
            forall|rest: Seq<Fed>, ending: Ending| #[trigger]
                serving.admits(rest, ending) ==> first.admits(history(chunks, None) + rest, ending),
        ensures
            chunks.flatten() == stream,
            !entry_broken(*old(entry)),
        decreases entry_unread(*entry).len(),
    {
        let ghost before = entry_unread(*entry);
        let ghost taken = chunks;
        let ghost feeding = serving;
        let n = match read_step(entry_read(entry, buf)) {
            ReadStep::Chunk(n) => n,
            ReadStep::End => {
                assert(chunks.flatten() =~= stream);
                break ;
            },
            ReadStep::Failed(cause) => {
                let e = GenericError::with_cause(name, ": read failed", cause.as_str());
                let ghost d = Delivery { stream, chunks, terminal: Some(Terminal::Error(e)) };
                assert(chunks.flatten() =~= stream);
                assert(chunks.flatten() =~= stream.subrange(0, chunks.flatten().len() as int));
                serving.fail(e);
                assert(feeding.admits(Seq::empty(), Ending::Failed(e)));
                assert(first.admits(history(chunks, None) + Seq::<Fed>::empty(), Ending::Failed(e)));
                assert(history(chunks, None) + Seq::<Fed>::empty() =~= history(chunks, None));
                return (LoadOutcome::ReadFailed(cause), Ghost(d));
            },
        };
        let chunk = slice_subrange(buf.as_slice(), 0, n);
        proof {
            taken.lemma_flatten_push(chunk@);
            assert(chunk@ =~= before.subrange(0, n as int));
            assert(before =~= before.subrange(0, n as int) + before.skip(n as int));
            chunks = taken.push(chunk@);
            assert(chunks.flatten() + entry_unread(*entry) =~= stream);
        }
        let given = serving.feed(chunk);
        let ghost call = fed_of(chunk@, given);
        proof {
            assert(feeding.admits(seq![call] + Seq::<Fed>::empty(), Ending::Open));
            assert(seq![call] + Seq::<Fed>::empty() =~= seq![call]);
            assert(first.admits(history(taken, None) + seq![call], Ending::Open));
            assert forall|rest: Seq<Fed>, ending: Ending| #[trigger]
                serving.admits(rest, ending) implies first.admits(
                (history(taken, None) + seq![call]) + rest,
                ending,
            ) by {
                assert(feeding.admits(seq![call] + rest, ending));
                assert(history(taken, None) + (seq![call] + rest) =~= (history(taken, None)
                    + seq![call]) + rest);
            }
        }
        match given {
            Ok(_) => {
                assert(history(taken, None) + seq![call] =~= history(chunks, None));
            },
            Err(err) => {
                let ghost d = Delivery { stream, chunks, terminal: None };
                assert(chunks.flatten() =~= stream.subrange(0, chunks.flatten().len() as int));
                assert(history(taken, None) + seq![call] =~= history(chunks, Some(err)));
                return (LoadOutcome::Abandoned(err, serving), Ghost(d));
            },
        }
    }
    assert(history(chunks, None) + Seq::<Fed>::empty() =~= history(chunks, None));
    let result = serving.finish();
    let ghost d = Delivery { stream, chunks, terminal: Some(Terminal::Eof) };
    assert(stream =~= stream.subrange(0, stream.len() as int));
    (LoadOutcome::Completed(result), Ghost(d))
}

impl Worker {
    /// The names of the entries that the worker's archive lists.
    pub closed spec fn entries(&self) -> Set<Seq<char>> {
        archive_names(self.zip)
    }

    /// Whether the worker's archive opens the entry called `name`.
    pub closed spec fn opens(&self, name: Seq<char>) -> bool {
        entry_opens(self.zip, name)
    }

    /// What the entry called `name` of the worker's archive hands out when
    /// it is read.
    pub closed spec fn content(&self, name: Seq<char>) -> Seq<u8> {
        entry_content(self.zip, name)
    }

    /// Whether the reading of the entry called `name` of the worker's
    /// archive ends in a failed read.
    pub closed spec fn breaks(&self, name: Seq<char>) -> bool {
        entry_breaks(self.zip, name)
    }

    /// What the worker's archive holds under `name`.
    pub open spec fn held(&self, name: Seq<char>) -> Held {
        Held { opens: self.opens(name), content: self.content(name), breaks: self.breaks(name) }
    }

    /// The worker serves from the same archive as `other`: they list, open
    /// and hold the same entries.
    pub open spec fn same_archive(&self, other: &Worker) -> bool {
        &&& self.entries() == other.entries()
        &&& forall|name: Seq<char>| #[trigger] self.held(name) == other.held(name)
    }

    /// Serves one load request: opens the entry and invokes the handler
    /// chunk by chunk until reading is finished. The request follows what
    /// the archive holds under the name: it fails at the opening exactly
    /// when the archive does not open the entry, as it does not for an
    /// entry that it does not list, and it hands on the entry's content.
    /// The handler is given those calls and no other.
    pub fn load(&mut self, name: String, handler: Box<dyn BoxedReadHandler>) -> (r: LoadReport)
        ensures
            r.serves(name, handler, old(self).held(name@)),
            old(self).opens(name@) ==> old(self).entries().contains(name@),
            final(self).same_archive(old(self)),
            r.terminal_callbacks() == 1 <==> !(r.outcome is Abandoned),
            r.terminal_callbacks() == 0 <==> r.outcome is Abandoned,
    {
        let ghost held = self.held(name@);
        let mut entry = match found_entry(entry_by_name(&mut self.zip, name.as_str())) {
            Ok(entry) => entry,
            Err(cause) => {
                let e = GenericError::with_cause(name.as_str(), ": open failed", cause.as_str());
                let ghost d = Delivery {
                    stream: Seq::empty(),
                    chunks: Seq::empty(),
                    terminal: Some(Terminal::Error(e)),
                };
                assert(d.chunks.flatten() =~= Seq::<u8>::empty());
                assert(d.chunks.flatten() =~= d.stream.subrange(0, 0));
                assert(history(d.chunks, None) =~= Seq::<Fed>::empty());
                handler.fail(e);
                return LoadReport {
                    name,
                    outcome: LoadOutcome::OpenFailed(cause),
                    delivery: Ghost(d),
                };
            },
        };
        let (outcome, delivery) = stream_entry(&mut entry, &mut self.buf, name.as_str(), handler);
        LoadReport { name, outcome, delivery }
    }

    /// Serves one request.
    pub fn handle(&mut self, request: Request) -> (r: Served)
        ensures
            match request {
                Request::Load { name, handler } => r matches Served::Loaded(report)
                    && report.serves(name, handler, old(self).held(name@)),
                Request::Quit => r is Quit,
            },
            final(self).same_archive(old(self)),
    {
        match request {
            Request::Load { name, handler } => Served::Loaded(self.load(name, handler)),
            Request::Quit => Served::Quit,
        }
    }

    /// Serves `requests` in order, up to the first request to stop. Every
    /// load request before that one is served to its end and reported, in
    /// the order of the requests: each gets exactly one terminal callback,
    /// or none if its own handler failed.
    pub fn serve_all(&mut self, requests: Vec<Request>) -> (reports: Vec<LoadReport>)
        ensures
            reports.len() == served_before_quit(requests@),
            forall|i: int|
                0 <= i < reports.len() ==> {
                    &&& requests@[i] matches Request::Load { name, handler }
                    &&& (#[trigger] reports[i]).serves(name, handler, old(self).held(name@))
                    &&& reports[i].terminal_callbacks() == (if reports[i].outcome is Abandoned {
                        0nat
                    } else {
                        1nat
                    })
                },
            final(self).same_archive(old(self)),
    {
        let mut rest = requests;
        let mut reports: Vec<LoadReport> = Vec::new();
        assert(rest@.skip(0) =~= rest@);
        while rest.len() > 0
            invariant
                reports.len() <= requests@.len(),
                rest@ == requests@.skip(reports.len() as int),
                served_before_quit(requests@) == reports.len() + served_before_quit(rest@),
                self.same_archive(old(self)),
                forall|i: int|
                    0 <= i < reports.len() ==> {
                        &&& requests@[i] matches Request::Load { name, handler }
                        &&& (#[trigger] reports[i]).name == name
                        &&& reports[i].wf()
                        &&& follows(old(self).held(name@), reports[i].outcome, reports[i].delivery@)
                        &&& handled(handler, reports[i].outcome, reports[i].delivery@)
                    },
            decreases rest.len(),
        {
            let ghost before = rest@;
            let request = rest.remove(0);
            assert(rest@ =~= before.skip(1));
            assert(request == requests@[reports.len() as int]);
            match request {
                Request::Quit => {
                    return reports;
                },
                Request::Load { name, handler } => {
                    let report = self.load(name, handler);
                    reports.push(report);
                    assert(rest@ =~= requests@.skip(reports.len() as int));
                },
            }
        }
        reports
    }

    /// What the worker does with what a receive on the request channel
    /// returned: it serves a request that was received, and finds the
    /// channel disconnected where none could be.
    pub fn answer(&mut self, received: Result<Request, RecvError>) -> (r: Served)
        ensures
            match received {
                Ok(Request::Load { name, handler }) => r matches Served::Loaded(report)
                    && report.serves(name, handler, old(self).held(name@)),
                Ok(Request::Quit) => r is Quit,
                Err(_) => r is Disconnected,
            },
            final(self).same_archive(old(self)),
    {
        match received {
            Ok(request) => self.handle(request),
            Err(_) => Served::Disconnected,
        }
    }

    /// Waits for the next request and serves it. The worker's loop calls
    /// this until it returns something other than a served load. Which
    /// request arrives, if any, depends on the threads that hold the
    /// loader.
    pub fn serve_next(&mut self) -> (r: Served)
        ensures
            r matches Served::Loaded(report) ==> report.wf() && follows(
                old(self).held(report.name@),
                report.outcome,
                report.delivery@,
            ),
            final(self).same_archive(old(self)),
    {
        let received = self.request_receiver.recv();
        self.answer(received)
    }
}

} // verus!
