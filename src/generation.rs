use vstd::prelude::*;
use crate::request::{CompletionRequest, max_tokens_of};

verus! {

/// What the model reports while it works on one request.
pub enum TokenEvent {
    /// A token of the prompt was fed to the model; it is not part of the output.
    PromptToken(String),
    /// The model produced a token with this text.
    InferredToken(String),
    /// The model signalled the end of the generation.
    EndOfText,
    /// The model failed with this message.
    Failed(String),
}

/// A [`TokenEvent`] as mathematics.
pub ghost enum Event {
    Prompt,
    Token(Seq<char>),
    End,
    Fail(Seq<char>),
}

impl TokenEvent {
    pub open spec fn view(&self) -> Event {
        match self {
            TokenEvent::PromptToken(_) => Event::Prompt,
            TokenEvent::InferredToken(t) => Event::Token(t@),
            TokenEvent::EndOfText => Event::End,
            TokenEvent::Failed(m) => Event::Fail(m@),
        }
    }
}

/// What the caller of the model should do next.
#[derive(PartialEq, Eq, Structural, Clone, Copy, Debug)]
pub enum Feedback {
    Continue,
    Halt,
}

/// The state of one generation call.
pub ghost struct GenerationView {
    pub output: Seq<char>,
    pub produced: nat,
    pub max_tokens: nat,
    pub ended: bool,
    pub failure: Option<Seq<char>>,
}

/// A generation call before the model has produced anything.
pub open spec fn initial(max_tokens: nat) -> GenerationView {
    GenerationView {
        output: Seq::empty(),
        produced: 0,
        max_tokens,
        ended: false,
        failure: None,
    }
}

/// No more tokens are asked for: the model ended or failed, or the cap is reached.
pub open spec fn is_finished(v: GenerationView) -> bool {
    v.ended || v.failure is Some || v.produced >= v.max_tokens
}

/// The state after one event. A finished call ignores further events.
pub open spec fn step(v: GenerationView, e: Event) -> GenerationView {
    if is_finished(v) {
        v
    } else {
        match e {
            Event::Prompt => v,
            Event::Token(t) => GenerationView { output: v.output + t, produced: v.produced + 1, ..v },
            Event::End => GenerationView { ended: true, ..v },
            Event::Fail(m) => GenerationView { failure: Some(m), ..v },
        }
    }
}

/// The state after a run of events.
pub open spec fn run(v: GenerationView, es: Seq<Event>) -> GenerationView
    decreases es.len(),
{
    if es.len() == 0 {
        v
    } else {
        step(run(v, es.drop_last()), es.last())
    }
}

/// What a generation call hands back: its text, or the model's error.
pub open spec fn outcome(v: GenerationView) -> Result<Seq<char>, Seq<char>> {
    match v.failure {
        Some(m) => Err(m),
        None => Ok(v.output),
    }
}

/// The concatenation of token texts.
pub open spec fn joined(ts: Seq<Seq<char>>) -> Seq<char>
    decreases ts.len(),
{
    if ts.len() == 0 {
        Seq::empty()
    } else {
        joined(ts.drop_last()) + ts.last()
    }
}

/// The events of a model that produces these tokens and never signals an end.
pub open spec fn tokens_as_events(ts: Seq<Seq<char>>) -> Seq<Event> {
    ts.map_values(|t: Seq<char>| Event::Token(t))
}

/// One generation call: collects the produced tokens' text until the model
/// ends, fails, or the token cap is reached.
pub struct Generation {
    output: String,
    produced: usize,
    max_tokens: usize,
    ended: bool,
    failure: Option<String>,
}

impl Generation {
    pub closed spec fn view(&self) -> GenerationView {
        GenerationView {
            output: self.output@,
            produced: self.produced as nat,
            max_tokens: self.max_tokens as nat,
            ended: self.ended,
            failure: match self.failure {
                Some(m) => Some(m@),
                None => None,
            },
        }
    }

    pub closed spec fn wf(&self) -> bool {
        self.produced <= self.max_tokens
    }

    pub fn new(max_tokens: usize) -> (r: Generation)
        ensures
            r.wf(),
            r@ == initial(max_tokens as nat),
    {
        Generation {
            output: String::new(),
            produced: 0,
            max_tokens,
            ended: false,
            failure: None,
        }
    }

    /// A generation call for a request, capped as the request asks.
    pub fn for_request(request: &CompletionRequest) -> (r: Generation)
        ensures
            r.wf(),
            r@ == initial(max_tokens_of(request.completion_max_len@)),
    {
        Generation::new(request.max_tokens())
    }

    /// Whether the model should be asked for another token.
    pub fn wants_token(&self) -> (r: bool)
        ensures
            r == !is_finished(self@),
    {
        !(self.ended || self.failure.is_some() || self.produced >= self.max_tokens)
    }

    /// Takes one event from the model and says whether to go on.
    pub fn on_event(&mut self, event: TokenEvent) -> (r: Feedback)
        requires
            old(self).wf(),
        ensures
            final(self).wf(),
            final(self)@ == step(old(self)@, event@),
            r == (if is_finished(final(self)@) { Feedback::Halt } else { Feedback::Continue }),
    {
        if self.wants_token() {
            match event {
                TokenEvent::PromptToken(_) => {},
                TokenEvent::InferredToken(t) => {
                    self.output.append(t.as_str());
                    self.produced = self.produced + 1;
                },
                TokenEvent::EndOfText => {
                    self.ended = true;
                },
                TokenEvent::Failed(m) => {
                    self.failure = Some(m);
                },
            }
        }
        if self.wants_token() {
            Feedback::Continue
        } else {
            Feedback::Halt
        }
    }

    /// The text produced so far.
    pub fn output(&self) -> (r: &str)
        ensures
            r@ == self@.output,
    {
        self.output.as_str()
    }

    /// The result of the call: the text, or the model's error.
    pub fn finish(self) -> (r: Result<String, String>)
        ensures
            match (r, outcome(self@)) {
                (Ok(t), Ok(u)) => t@ == u,
                (Err(m), Err(n)) => m@ == n,
                _ => false,
            },
    {
        match self.failure {
            Some(m) => Err(m),
            None => Ok(self.output),
        }
    }
}

proof fn lemma_run_tokens(max_tokens: nat, ts: Seq<Seq<char>>)
    requires
        ts.len() <= max_tokens,
    ensures
        run(initial(max_tokens), tokens_as_events(ts)) == (GenerationView {
            output: joined(ts),
            produced: ts.len(),
            ..initial(max_tokens)
        }),
    decreases ts.len(),
{
    if ts.len() > 0 {
        lemma_run_tokens(max_tokens, ts.drop_last());
        assert(tokens_as_events(ts).drop_last() =~= tokens_as_events(ts.drop_last()));
    } else {
        assert(joined(ts) =~= Seq::<char>::empty());
    }
}

proof fn lemma_run_split(v: GenerationView, a: Seq<Event>, b: Seq<Event>)
    ensures
        run(v, a + b) == run(run(v, a), b),
    decreases b.len(),
{
    if b.len() == 0 {
        assert(a + b =~= a);
    } else {
        lemma_run_split(v, a, b.drop_last());
        assert((a + b).drop_last() =~= a + b.drop_last());
        assert((a + b).last() == b.last());
    }
}

proof fn lemma_finished_stays(v: GenerationView, es: Seq<Event>)
    requires
        is_finished(v),
    ensures
        run(v, es) == v,
    decreases es.len(),
{
    if es.len() > 0 {
        lemma_finished_stays(v, es.drop_last());
    }
}

/// A model that produces tokens and never signals an end is asked for no
/// more once the cap is reached: the call is finished, and its result is the
/// text of the first `max_tokens` tokens.
pub proof fn lemma_stops_at_cap(max_tokens: nat, ts: Seq<Seq<char>>)
    requires
        ts.len() >= max_tokens,
    ensures
        is_finished(run(initial(max_tokens), tokens_as_events(ts))),
        outcome(run(initial(max_tokens), tokens_as_events(ts))) == Ok::<Seq<char>, Seq<char>>(
            joined(ts.take(max_tokens as int)),
        ),
{
    let head = ts.take(max_tokens as int);
    let tail = ts.skip(max_tokens as int);
    lemma_run_tokens(max_tokens, head);
    assert(tokens_as_events(ts) =~= tokens_as_events(head) + tokens_as_events(tail));
    lemma_run_split(initial(max_tokens), tokens_as_events(head), tokens_as_events(tail));
    lemma_finished_stays(run(initial(max_tokens), tokens_as_events(head)), tokens_as_events(tail));
}

proof fn lemma_output_grows(v: GenerationView, es: Seq<Event>)
    ensures
        v.output.len() <= run(v, es).output.len(),
    decreases es.len(),
{
    if es.len() > 0 {
        lemma_output_grows(v, es.drop_last());
    }
}

/// Text once taken is never lost: when the model hands over a token with
/// text while the call still runs, the call's output is not empty, whatever
/// events follow.
pub proof fn lemma_taken_text_stays(v: GenerationView, t: Seq<char>, rest: Seq<Event>)
    requires
        !is_finished(v),
        t.len() > 0,
    ensures
        run(v, seq![Event::Token(t)] + rest).output.len() > 0,
{
    lemma_run_split(v, seq![Event::Token(t)], rest);
    let one = seq![Event::Token(t)];
    assert(one.drop_last() =~= Seq::<Event>::empty());
    assert(run(v, one.drop_last()) == v);
    assert(one.last() == Event::Token(t));
    assert(run(v, one) == step(v, Event::Token(t)));
    lemma_output_grows(step(v, Event::Token(t)), rest);
}

/// A call whose model never fails ends without a failure.
pub proof fn lemma_no_failure(v: GenerationView, es: Seq<Event>)
    requires
        v.failure is None,
        forall|i: int| 0 <= i < es.len() ==> !(#[trigger] es[i] is Fail),
    ensures
        run(v, es).failure is None,
    decreases es.len(),
{
    if es.len() > 0 {
        let front = es.drop_last();
        assert forall|i: int| 0 <= i < front.len() implies !(#[trigger] front[i] is Fail) by {
            assert(front[i] == es[i]);
        }
        lemma_no_failure(v, front);
        assert(!(es[es.len() - 1] is Fail));
    }
}

} // verus!
