//! The stream of a sliding sync: requests, replies and what is done with them, in turn.
//!
//! A stream performs no input or output. It is told what has happened by events and answers with
//! the action to perform next; whoever runs it performs the action and comes back with the event.
use vstd::prelude::*;
use url::Url;
use crate::sync_laws::{after_lists_keeps_views, round_frame};
use crate::model::{
    awaits, first_generator, first_stream, generator_ready, round, round_ready, step_ready,
    stream_of, stream_step, ActionModel, EventModel, PhaseModel, Round, StreamModel, StreamStep,
    SyncModel,
};
use crate::sync::{views_view, SlidingSync};
use crate::types::{
    request_lists_view, texts_view, InnerSlidingSyncViewRequestGenerator, Request, Response,
    SyncError, SyncRequestList,
};
use crate::view::{SlidingSyncView, SlidingSyncViewRequestGenerator};

verus! {

/// The point that a stream is at.
#[derive(Debug)]
pub enum StreamPhase {
    /// The next request can be made.
    Ready,
    /// A request has been made and waits to be sent.
    Prepared(Request),
    /// A request has been sent.
    Sent,
    /// A reply has come and waits to be taken in.
    Received(Response),
    /// The stream has ended.
    Done,
}

impl View for StreamPhase {
    type V = PhaseModel;

    open spec fn view(&self) -> PhaseModel {
        match self {
            StreamPhase::Ready => PhaseModel::Ready,
            StreamPhase::Prepared(request) => PhaseModel::Prepared(request@),
            StreamPhase::Sent => PhaseModel::Sent,
            StreamPhase::Received(response) => PhaseModel::Received(response@),
            StreamPhase::Done => PhaseModel::Done,
        }
    }
}

/// What a stream is told.
#[derive(Debug)]
pub enum StreamEvent {
    /// The next item is wanted.
    Resume,
    /// Whether the stream has been cancelled, as asked for.
    Cancelled(bool),
    /// The reply to the request that was sent.
    Reply(Response),
    /// The request could not be sent, or no reply came.
    SendFailed,
}

impl View for StreamEvent {
    type V = EventModel;

    open spec fn view(&self) -> EventModel {
        match self {
            StreamEvent::Resume => EventModel::Resume,
            StreamEvent::Cancelled(cancelled) => EventModel::Cancelled(*cancelled),
            StreamEvent::Reply(response) => EventModel::Reply(response@),
            StreamEvent::SendFailed => EventModel::SendFailed,
        }
    }
}

/// What a stream asks for.
#[derive(Debug)]
pub enum StreamAction {
    /// Tell whether the stream has been cancelled.
    CheckCancel,
    /// Send the request and tell the reply.
    Send(Request),
    /// Hand out an item: a response has been taken in.
    Yield,
    /// Hand out the error of the sending and end the stream.
    SendFailed,
    /// End the stream.
    Finish,
    /// Hand out the error and end the stream.
    Fail(SyncError),
}

impl View for StreamAction {
    type V = ActionModel;

    open spec fn view(&self) -> ActionModel {
        match self {
            StreamAction::CheckCancel => ActionModel::CheckCancel,
            StreamAction::Send(request) => ActionModel::Send(request@),
            StreamAction::Yield => ActionModel::Yield,
            StreamAction::SendFailed => ActionModel::SendFailed,
            StreamAction::Finish => ActionModel::Finish,
            StreamAction::Fail(e) => ActionModel::Fail(*e),
        }
    }
}

/// Where the generators are.
pub open spec fn generators_view(s: Seq<SlidingSyncViewRequestGenerator>) -> Seq<
    InnerSlidingSyncViewRequestGenerator,
> {
    s.map_values(|g: SlidingSyncViewRequestGenerator| g.inner)
}

/// A stream of the views that a sliding sync has when the stream is made.
#[derive(Debug)]
pub struct SlidingSyncStream {
    homeserver: Url,
    server_versions: Vec<String>,
    generators: Vec<SlidingSyncViewRequestGenerator>,
    remaining: Vec<usize>,
    phase: StreamPhase,
}

impl View for SlidingSyncStream {
    type V = StreamModel;

    closed spec fn view(&self) -> StreamModel {
        StreamModel {
            homeserver: self.homeserver,
            server_versions: texts_view(self.server_versions@),
            generators: generators_view(self.generators@),
            remaining: self.remaining@,
            phase: self.phase@,
        }
    }
}

impl SlidingSyncStream {
    /// The model of a stream is what it holds.
    proof fn models_what_is_held(&self)
        ensures
            self@.homeserver == self.homeserver,
            self@.server_versions == texts_view(self.server_versions@),
            self@.generators == generators_view(self.generators@),
            self@.remaining == self.remaining@,
            self@.phase == match self.phase {
                StreamPhase::Ready => PhaseModel::Ready,
                StreamPhase::Prepared(request) => PhaseModel::Prepared(request@),
                StreamPhase::Sent => PhaseModel::Sent,
                StreamPhase::Received(response) => PhaseModel::Received(response@),
                StreamPhase::Done => PhaseModel::Done,
            },
    {
    }

    /// The address that the requests go to.
    pub fn homeserver(&self) -> (r: &Url)
        ensures
            *r == self@.homeserver,
    {
        &self.homeserver
    }

    /// The versions of the protocol that the server speaks.
    pub fn server_versions(&self) -> (r: &Vec<String>)
        ensures
            texts_view(r@) == self@.server_versions,
    {
        &self.server_versions
    }
}

impl SlidingSync {
    /// Create the inner stream for the views
    pub fn stream(&self) -> (r: SlidingSyncStream)
        ensures
            r@ == first_stream(self@),
            stream_of(self@, r@),
    {
        let views: &Vec<SlidingSyncView> = self.views();
        let mut generators: Vec<SlidingSyncViewRequestGenerator> = Vec::new();
        let mut remaining: Vec<usize> = Vec::new();
        let mut i: usize = 0;
        while i < views.len()
            invariant
                i <= views@.len(),
                views_view(views@) == self@.views,
                generators@.len() == i,
                remaining@.len() == i,
                forall|j: int|
                    0 <= j < i ==> (#[trigger] generators@[j]).inner == first_generator(
                        views@[j]@,
                    ),
                forall|j: int| 0 <= j < i ==> #[trigger] remaining@[j] == j,
            decreases views@.len() - i,
        {
            generators.push(views[i].request_generator());
            remaining.push(i);
            i = i + 1;
        }
        let r = SlidingSyncStream {
            homeserver: self.target(),
            server_versions: self.server_versions(),
            generators,
            remaining,
            phase: StreamPhase::Ready,
        };
        proof {
            assert(self@.views.len() == views@.len());
            assert(r@.generators =~= first_stream(self@).generators);
            assert(r@.remaining =~= first_stream(self@).remaining);
        }
        r
    }

    /// One step of each generator, for the requests of the next round.
    fn next_requests(&mut self, stream: &mut SlidingSyncStream) -> (r: Vec<SyncRequestList>)
        requires
            stream_of(old(self)@, old(stream)@),
            round_ready(old(self)@.views, old(stream)@.generators, old(stream)@.remaining),
        ensures
            final(self)@ == (SyncModel {
                views: whole_round(old(self)@, old(stream)@).views,
                ..old(self)@
            }),
            final(stream)@ == (StreamModel {
                generators: whole_round(old(self)@, old(stream)@).generators,
                ..old(stream)@
            }),
            request_lists_view(r@) == whole_round(old(self)@, old(stream)@).requests,
            final(self).watchers() == old(self).watchers(),
    {
        let ghost sync = self@;
        let ghost start = stream@;
        let mut requests: Vec<SyncRequestList> = Vec::new();
        let mut generators: Vec<SlidingSyncViewRequestGenerator> = Vec::new();
        let mut remaining: Vec<usize> = Vec::new();
        let mut i: usize = 0;
        proof {
            assert(request_lists_view(requests@) =~= Seq::empty());
            assert(generators_view(generators@) =~= Seq::empty());
        }
        while i < stream.remaining.len()
            invariant
                i <= start.remaining.len(),
                stream@ == start,
                stream_of(sync, start),
                round_ready(sync.views, start.generators, start.remaining),
                self@ == (SyncModel { views: upto(sync, start, i as nat).views, ..sync }),
                generators_view(generators@) == upto(sync, start, i as nat).generators,
                request_lists_view(requests@) == upto(sync, start, i as nat).requests,
                remaining@ == start.remaining.take(i as int),
                self.watchers() == old(self).watchers(),
            decreases start.remaining.len() - i,
        {
            let number: usize = stream.remaining[i];
            let mut generator: SlidingSyncViewRequestGenerator = stream.generators[i];
            let ghost done = generators@;
            let ghost asked = requests@;
            proof {
                round_frame(sync.views, start.generators, start.remaining, i as nat);
                assert(start.remaining[i as int] == number);
                assert(start.generators[i as int] == generator.inner);
                self.watchers_by_view();
            }
            if let Some(request) = generator.next(self.view_mut(number)) {
                requests.push(request);
                generators.push(generator);
                remaining.push(number);
                proof {
                    assert(generators_view(generators@) =~= generators_view(done).push(
                        generator.inner,
                    ));
                    assert(request_lists_view(requests@) =~= request_lists_view(asked).push(
                        request@,
                    ));
                }
            }
            assert(remaining@ =~= start.remaining.take(i + 1));
            i = i + 1;
        }
        assert(start.remaining.take(i as int) =~= start.remaining);
        stream.generators = generators;
        stream.remaining = remaining;
        requests
    }

    /// What the stream does on the event, which is one that it waits for.
    pub fn step(&mut self, stream: &mut SlidingSyncStream, event: StreamEvent) -> (r: StreamAction)
        requires
            stream_of(old(self)@, old(stream)@),
            awaits(old(stream)@, event@),
            step_ready(old(self)@, old(stream)@, event@),
        ensures
            (StreamStep { sync: final(self)@, stream: final(stream)@, action: r@ }) == stream_step(
                old(self)@,
                old(stream)@,
                event@,
            ),
            stream_of(final(self)@, final(stream)@),
            final(self).watchers() == old(self).watchers(),
    {
        proof {
            round_frame(
                self@.views,
                stream@.generators,
                stream@.remaining,
                stream@.remaining.len(),
            );
        }
        let mut phase: StreamPhase = StreamPhase::Done;
        core::mem::swap(&mut phase, &mut stream.phase);
        match phase {
            StreamPhase::Ready => {
                let lists: Vec<SyncRequestList> = self.next_requests(stream);
                if stream.remaining.is_empty() {
                    return StreamAction::Finish;
                }
                let request = Request { pos: self.pos(), lists };
                stream.phase = StreamPhase::Prepared(request);
                StreamAction::CheckCancel
            },
            StreamPhase::Prepared(request) => match event {
                StreamEvent::Cancelled(false) => {
                    stream.phase = StreamPhase::Sent;
                    StreamAction::Send(request)
                },
                _ => StreamAction::Finish,
            },
            StreamPhase::Sent => match event {
                StreamEvent::Reply(response) => {
                    stream.phase = StreamPhase::Received(response);
                    StreamAction::CheckCancel
                },
                _ => StreamAction::SendFailed,
            },
            StreamPhase::Received(response) => match event {
                StreamEvent::Cancelled(false) => {
                    proof {
                        if response@.ops is Some {
                            after_lists_keeps_views(
                                self@.views,
                                stream@.remaining,
                                response@.counts,
                                response@.ops->0,
                                0,
                            );
                        }
                    }
                    match self.handle_response(response, &stream.remaining) {
                        Ok(_) => {
                            stream.phase = StreamPhase::Ready;
                            StreamAction::Yield
                        },
                        Err(e) => StreamAction::Fail(e),
                    }
                },
                _ => StreamAction::Finish,
            },
            StreamPhase::Done => StreamAction::Finish,
        }
    }

    /// Whether each generator of the stream has a next request.
    fn requests_ready(&self, stream: &SlidingSyncStream) -> (r: bool)
        requires
            stream_of(self@, stream@),
        ensures
            r == round_ready(self@.views, stream@.generators, stream@.remaining),
    {
        let views: &Vec<SlidingSyncView> = self.views();
        let mut i: usize = 0;
        while i < stream.remaining.len()
            invariant
                i <= stream@.remaining.len(),
                stream_of(self@, stream@),
                views_view(views@) == self@.views,
                forall|j: int|
                    0 <= j < i ==> generator_ready(
                        self@.views[#[trigger] stream@.remaining[j] as int],
                        stream@.generators[j],
                    ),
            decreases stream@.remaining.len() - i,
        {
            assert(stream@.remaining[i as int] < views_view(views@).len());
            let view: &SlidingSyncView = &views[stream.remaining[i]];
            assert(view@ == views_view(views@)[stream@.remaining[i as int] as int]);
            assert(stream@.generators[i as int] == stream.generators@[i as int].inner);
            if !stream.generators[i].ready(view) {
                return false;
            }
            i = i + 1;
        }
        true
    }

    /// Whether the step of the stream on the event is defined.
    pub fn can_step(&self, stream: &SlidingSyncStream, event: &StreamEvent) -> (r: bool)
        requires
            stream_of(self@, stream@),
        ensures
            r == (awaits(stream@, event@) && step_ready(self@, stream@, event@)),
    {
        match (&stream.phase, event) {
            (StreamPhase::Ready, StreamEvent::Resume) => self.requests_ready(stream),
            (StreamPhase::Prepared(_), StreamEvent::Cancelled(_)) => true,
            (StreamPhase::Sent, StreamEvent::Reply(_)) => true,
            (StreamPhase::Sent, StreamEvent::SendFailed) => true,
            (StreamPhase::Received(_), StreamEvent::Cancelled(true)) => true,
            (StreamPhase::Received(response), StreamEvent::Cancelled(false)) => self.response_fits(
                response,
                &stream.remaining,
            ),
            _ => false,
        }
    }

    /// What the stream does on the event, if the step is defined; else `None`, and all stays as
    /// it is.
    pub fn checked_step(&mut self, stream: &mut SlidingSyncStream, event: StreamEvent) -> (r: Option<
        StreamAction,
    >)
        requires
            stream_of(old(self)@, old(stream)@),
        ensures
            r is Some <==> awaits(old(stream)@, event@) && step_ready(
                old(self)@,
                old(stream)@,
                event@,
            ),
            r matches Some(action) ==> (StreamStep {
                sync: final(self)@,
                stream: final(stream)@,
                action: action@,
            }) == stream_step(old(self)@, old(stream)@, event@),
            r is None ==> final(self)@ == old(self)@ && final(stream)@ == old(stream)@,
            stream_of(final(self)@, final(stream)@),
            final(self).watchers() == old(self).watchers(),
    {
        if self.can_step(stream, &event) {
            Some(self.step(stream, event))
        } else {
            None
        }
    }
}

/// A round of the first `n` generators of a stream.
pub open spec fn upto(sync: SyncModel, stream: StreamModel, n: nat) -> Round {
    round(sync.views, stream.generators, stream.remaining, n)
}

/// A round of the generators of a stream.
pub open spec fn whole_round(sync: SyncModel, stream: StreamModel) -> Round {
    upto(sync, stream, stream.remaining.len())
}

} // verus!
