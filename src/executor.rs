use vstd::prelude::*;
use std::collections::VecDeque;
use crate::generation::{
    Event, Generation, GenerationView, initial, lemma_no_failure, lemma_taken_text_stays, outcome, run,
};
use crate::request::CompletionRequest;

verus! {

/// A request waiting in the executor's inbox, with the ticket it was given.
pub struct Job {
    pub ticket: u64,
    pub request: CompletionRequest,
}

/// The executor as mathematics.
pub ghost struct ExecutorView {
    /// Tickets and prompts of the waiting requests, oldest first.
    pub pending: Seq<(u64, Seq<char>)>,
    /// Ticket and prompt of the request being generated, if any.
    pub servicing: Option<(u64, Seq<char>)>,
    /// The ticket the next submitted request gets.
    pub next_ticket: nat,
    /// The executor's ghost record of every served prompt and its output, in
    /// order, over all requests; it exists only in proofs.
    pub transcript: Seq<char>,
}

/// Tickets grow in submission order; the one in service is older than every
/// waiting one; all were handed out already.
pub open spec fn executor_wf(v: ExecutorView) -> bool {
    &&& forall|i: int, j: int|
        0 <= i < j < v.pending.len() ==> v.pending[i].0 < v.pending[j].0
    &&& forall|i: int| 0 <= i < v.pending.len() ==> v.pending[i].0 < v.next_ticket
    &&& v.next_ticket <= u64::MAX
    &&& match v.servicing {
        Some((t, _)) => {
            &&& t < v.next_ticket
            &&& forall|i: int| 0 <= i < v.pending.len() ==> t < v.pending[i].0
        },
        None => true,
    }
}

/// The executor after a request with this prompt joins the end of the inbox.
pub open spec fn submit_spec(v: ExecutorView, prompt: Seq<char>) -> ExecutorView {
    ExecutorView {
        pending: v.pending.push((v.next_ticket as u64, prompt)),
        next_ticket: v.next_ticket + 1,
        ..v
    }
}

/// Whether a request can be taken into service now.
pub open spec fn can_begin(v: ExecutorView) -> bool {
    v.servicing is None && v.pending.len() > 0
}

/// The executor after it takes the oldest waiting request into service, which
/// it does only when no request is in service.
pub open spec fn begin_spec(v: ExecutorView) -> ExecutorView {
    if can_begin(v) {
        ExecutorView { pending: v.pending.drop_first(), servicing: Some(v.pending[0]), ..v }
    } else {
        v
    }
}

/// Whether the request with this ticket is the one in service.
pub open spec fn is_servicing(v: ExecutorView, ticket: u64) -> bool {
    match v.servicing {
        Some((t, _)) => t == ticket,
        None => false,
    }
}

/// The executor after the request in service finishes its generation call.
/// The record keeps the served prompt and its output: nothing is reset.
pub open spec fn complete_spec(v: ExecutorView, ticket: u64, g: GenerationView) -> ExecutorView {
    match v.servicing {
        Some((t, p)) => if t == ticket {
            ExecutorView { servicing: None, transcript: v.transcript + p + g.output, ..v }
        } else {
            v
        },
        None => v,
    }
}

/// Serializes generation: takes requests in, hands them out one at a time in
/// the order they came, and keeps a ghost record of every served prompt and
/// output.
pub struct Executor {
    queue: VecDeque<Job>,
    servicing: Option<u64>,
    serviced_prompt: Ghost<Seq<char>>,
    next_ticket: u64,
    transcript: Ghost<Seq<char>>,
}

impl Executor {
    pub closed spec fn view(&self) -> ExecutorView {
        ExecutorView {
            pending: self.queue@.map_values(|j: Job| (j.ticket, j.request.prompt_tokens@)),
            servicing: match self.servicing {
                Some(t) => Some((t, self.serviced_prompt@)),
                None => None,
            },
            next_ticket: self.next_ticket as nat,
            transcript: self.transcript@,
        }
    }

    pub fn new() -> (r: Executor)
        ensures
            executor_wf(r@),
            r@ == (ExecutorView {
                pending: Seq::empty(),
                servicing: None,
                next_ticket: 0,
                transcript: Seq::empty(),
            }),
    {
        let r = Executor {
            queue: VecDeque::new(),
            servicing: None,
            serviced_prompt: Ghost(Seq::empty()),
            next_ticket: 0,
            transcript: Ghost(Seq::empty()),
        };
        assert(r@.pending =~= Seq::empty());
        r
    }

    /// Puts a request at the end of the inbox and returns its ticket; `None`
    /// once every ticket has been handed out.
    pub fn submit(&mut self, request: CompletionRequest) -> (r: Option<u64>)
        requires
            executor_wf(old(self)@),
        ensures
            executor_wf(final(self)@),
            r is Some <==> old(self)@.next_ticket < u64::MAX,
            r is Some ==> r == Some(old(self)@.next_ticket as u64) && final(self)@ == submit_spec(
                old(self)@,
                request.prompt_tokens@,
            ),
            r is None ==> final(self)@ == old(self)@,
    {
        if self.next_ticket == u64::MAX {
            return None;
        }
        let ticket = self.next_ticket;
        let ghost prompt = request.prompt_tokens@;
        self.queue.push_back(Job { ticket, request });
        self.next_ticket = ticket + 1;
        assert(self@.pending =~= old(self)@.pending.push((ticket, prompt)));
        Some(ticket)
    }

    /// Takes the oldest waiting request into service, unless one is in service
    /// already or none waits.
    pub fn begin_next(&mut self) -> (r: Option<Job>)
        requires
            executor_wf(old(self)@),
        ensures
            executor_wf(final(self)@),
            final(self)@ == begin_spec(old(self)@),
            r is Some <==> can_begin(old(self)@),
            match r {
                Some(j) => (j.ticket, j.request.prompt_tokens@) == old(self)@.pending[0],
                None => true,
            },
    {
        if self.servicing.is_some() {
            return None;
        }
        match self.queue.pop_front() {
            Some(job) => {
                self.servicing = Some(job.ticket);
                self.serviced_prompt = Ghost(job.request.prompt_tokens@);
                assert(self@.pending =~= old(self)@.pending.drop_first());
                Some(job)
            },
            None => None,
        }
    }

    /// Records the end of the generation call for the request in service and
    /// returns its reply; `None`, with nothing changed, for any other ticket.
    pub fn complete(&mut self, ticket: u64, generation: Generation) -> (r: Option<
        Result<String, String>,
    >)
        requires
            executor_wf(old(self)@),
        ensures
            executor_wf(final(self)@),
            final(self)@ == complete_spec(old(self)@, ticket, generation@),
            r is Some <==> is_servicing(old(self)@, ticket),
            match r {
                Some(Ok(t)) => outcome(generation@) == Ok::<Seq<char>, Seq<char>>(t@),
                Some(Err(m)) => outcome(generation@) == Err::<Seq<char>, Seq<char>>(m@),
                None => true,
            },
    {
        if self.servicing != Some(ticket) {
            return None;
        }
        self.servicing = None;
        self.transcript = Ghost(self.transcript@ + self.serviced_prompt@ + generation@.output);
        Some(generation.finish())
    }

    /// The ticket of the request in service, if any.
    pub fn in_service(&self) -> (r: Option<u64>)
        ensures
            match (r, self@.servicing) {
                (Some(t), Some((u, _))) => t == u,
                (None, None) => true,
                _ => false,
            },
    {
        self.servicing
    }

    /// The number of requests waiting.
    pub fn waiting(&self) -> (r: usize)
        ensures
            r == self@.pending.len(),
    {
        self.queue.len()
    }
}

/// The prompt of the request in service; empty when none is.
pub open spec fn serviced_prompt(v: ExecutorView) -> Seq<char> {
    match v.servicing {
        Some((_, p)) => p,
        None => Seq::empty(),
    }
}

/// Every step keeps the executor well formed.
pub proof fn lemma_steps_keep_wf(
    v: ExecutorView,
    prompt: Seq<char>,
    ticket: u64,
    g: GenerationView,
)
    requires
        executor_wf(v),
    ensures
        v.next_ticket < u64::MAX ==> executor_wf(submit_spec(v, prompt)),
        executor_wf(begin_spec(v)),
        executor_wf(complete_spec(v, ticket, g)),
{
    let s = submit_spec(v, prompt);
    assert forall|i: int| 0 <= i < s.pending.len() implies s.pending[i].0 < s.next_ticket by {
        if i < v.pending.len() {
            assert(s.pending[i] == v.pending[i]);
        }
    }
    let b = begin_spec(v);
    if can_begin(v) {
        assert forall|i: int| 0 <= i < b.pending.len() implies v.pending[0].0 < b.pending[i].0 by {
            assert(b.pending[i] == v.pending[i + 1]);
        }
    }
}

/// At most one request is in service at any time: while one is, asking for
/// the next changes nothing, and a request enters service only when none was.
pub proof fn lemma_one_in_service(v: ExecutorView)
    ensures
        v.servicing is Some ==> begin_spec(v) == v,
        begin_spec(v) != v ==> v.servicing is None && begin_spec(v).servicing is Some,
{
}

/// Requests are served in the order they were submitted: the one taken into
/// service holds the lowest waiting ticket.
pub proof fn lemma_first_in_first_served(v: ExecutorView)
    requires
        executor_wf(v),
        can_begin(v),
    ensures
        begin_spec(v).servicing == Some(v.pending[0]),
        forall|i: int| 0 <= i < v.pending.len() ==> v.pending[0].0 <= #[trigger] v.pending[i].0,
{
    assert forall|i: int| 0 <= i < v.pending.len() implies v.pending[0].0 <= #[trigger] v.pending[i].0 by {
        if i > 0 {
            assert(v.pending[0].0 < v.pending[i].0);
        }
    }
}

/// A failed generation does not leave the executor dead: nothing is in
/// service afterwards, and a waiting request can be taken into service.
pub proof fn lemma_usable_after_failure(v: ExecutorView, ticket: u64, g: GenerationView)
    requires
        executor_wf(v),
        is_servicing(v, ticket),
        outcome(g) is Err,
    ensures
        complete_spec(v, ticket, g).servicing is None,
        complete_spec(v, ticket, g).pending == v.pending,
        v.pending.len() > 0 ==> can_begin(complete_spec(v, ticket, g)),
{
}

/// A request gets exactly one reply: completing the request in service
/// answers it, after which its ticket is neither in service nor waiting, a
/// second completion for it changes nothing, and no later submission gets it.
pub proof fn lemma_one_reply(v: ExecutorView, ticket: u64, g: GenerationView, h: GenerationView)
    requires
        executor_wf(v),
        is_servicing(v, ticket),
    ensures
        !is_servicing(complete_spec(v, ticket, g), ticket),
        forall|i: int|
            0 <= i < complete_spec(v, ticket, g).pending.len() ==> #[trigger] complete_spec(
                v,
                ticket,
                g,
            ).pending[i].0 != ticket,
        ticket < complete_spec(v, ticket, g).next_ticket,
        complete_spec(complete_spec(v, ticket, g), ticket, h) == complete_spec(v, ticket, g),
{
}

/// The record is not reset between requests: when the next request enters
/// service, the transcript ends with the previous request's prompt and output.
pub proof fn lemma_context_carries_over(v: ExecutorView, ticket: u64, g: GenerationView)
    requires
        is_servicing(v, ticket),
    ensures
        begin_spec(complete_spec(v, ticket, g)).transcript == v.transcript + serviced_prompt(v)
            + g.output,
{
}

/// After a failed generation the executor serves the next waiting request,
/// and that request succeeds with text when the model hands over a token with
/// text and does not fail.
pub proof fn lemma_next_request_succeeds(
    v: ExecutorView,
    ticket: u64,
    g: GenerationView,
    max_tokens: nat,
    t: Seq<char>,
    rest: Seq<Event>,
)
    requires
        executor_wf(v),
        is_servicing(v, ticket),
        outcome(g) is Err,
        v.pending.len() > 0,
        max_tokens > 0,
        t.len() > 0,
        forall|i: int| 0 <= i < rest.len() ==> !(#[trigger] rest[i] is Fail),
    ensures
        begin_spec(complete_spec(v, ticket, g)).servicing == Some(v.pending[0]),
        outcome(run(initial(max_tokens), seq![Event::Token(t)] + rest)) is Ok,
        run(initial(max_tokens), seq![Event::Token(t)] + rest).output.len() > 0,
{
    lemma_taken_text_stays(initial(max_tokens), t, rest);
    let es = seq![Event::Token(t)] + rest;
    assert forall|i: int| 0 <= i < es.len() implies !(#[trigger] es[i] is Fail) by {
        if i > 0 {
            assert(es[i] == rest[i - 1]);
        }
    }
    lemma_no_failure(initial(max_tokens), es);
}

} // verus!
