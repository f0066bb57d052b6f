//! The search engine: one attempt per candidate, a shared progress counter,
//! and a state machine that settles on exactly one outcome.
//!
//! Workers call [`attempt`] on their candidates and pass every attempt
//! through one shared [`Engine`]: [`Engine::begin_attempt`] before the keyed
//! hash is computed, [`Engine::finish_attempt`] after it, and
//! [`Engine::finish`] once the candidates have run out. The engine answers
//! each call with what to show, and the laws in the `laws` module say what
//! holds of every order in which such calls can arrive. [`search`] is the
//! engine driven by a single worker, in wordlist order.

use vstd::prelude::*;
use vstd::string::StringSliceAdditionalSpecFns;
use vstd::utf8::encode_utf8;
use crate::algorithm::HmacAlgorithm;
use crate::factory::{signature_matches, VerifierFactory};
use crate::progress::{progress_report, progress_report_spec, ProgressReport};
use crate::token::{Token, TokenView};
use crate::wordlist::texts;

verus! {

/// Whether the candidate `word`, taken byte for byte as the key, reproduces
/// the signature of `token`.
pub open spec fn candidate_matches(
    algorithm: HmacAlgorithm,
    token: TokenView,
    word: Seq<char>,
) -> bool {
    signature_matches(algorithm, encode_utf8(word), token.header, token.payload, token.signature)
}

/// One verification attempt: builds the verifier keyed with `word` and
/// checks the token's signature with it.
pub fn attempt(factory: &VerifierFactory, token: &Token, word: &str) -> (matched: bool)
    ensures
        matched == candidate_matches(factory.algorithm_spec(), token@, word@),
{
    let verifier = factory.make_verifier(word.as_bytes());
    verifier.verify(token.header, token.payload, token.signature)
}

/// How many workers attempt candidates side by side.
#[derive(Clone, Copy, Debug, PartialEq, Eq, Structural)]
pub enum Workers {
    /// As many as the platform suggests.
    PlatformDefault,
    /// This many, which is at least one.
    Fixed(usize),
}

/// The size of the worker pool for a requested count: zero asks for the
/// platform's default, any other count is taken as it is.
pub fn workers(requested: usize) -> (pool: Workers)
    ensures
        requested == 0 ==> pool == Workers::PlatformDefault,
        requested > 0 ==> pool == Workers::Fixed(requested),
{
    if requested == 0 {
        Workers::PlatformDefault
    } else {
        Workers::Fixed(requested)
    }
}

/// The three states of a search.
#[derive(Clone, Copy, Debug, PartialEq, Eq, Structural)]
pub enum SearchState {
    /// Candidates are still being attempted.
    Running,
    /// A candidate reproduced the signature.
    Found,
    /// Every candidate was attempted and none reproduced the signature.
    Exhausted,
}

/// What an engine is: its state, how many attempts it has admitted out of
/// how many candidates, and the secret once it is found.
pub struct EngineView {
    pub state: SearchState,
    pub progress: nat,
    pub total: nat,
    pub algorithm: HmacAlgorithm,
    pub secret: Option<Seq<char>>,
}

/// What can happen to an engine while candidates are being attempted.
pub enum Event {
    /// A worker is about to attempt a candidate.
    Begin,
    /// A worker has attempted `word`, and `matched` says how it went.
    Finish { word: Seq<char>, matched: bool },
}

impl EngineView {
    /// The engine at the start of a search over `total` candidates.
    pub open spec fn initial(algorithm: HmacAlgorithm, total: nat) -> EngineView {
        EngineView { state: SearchState::Running, progress: 0, total, algorithm, secret: None }
    }

    /// Whether the engine holds a secret exactly when it has found one, and
    /// has admitted no more attempts than there are candidates.
    pub open spec fn well_formed(self) -> bool {
        &&& self.progress <= self.total
        &&& self.state == SearchState::Found <==> self.secret is Some
    }

    /// Whether another attempt is admitted: the search is running and not
    /// every candidate has been handed out.
    pub open spec fn admits(self) -> bool {
        self.state == SearchState::Running && self.progress < self.total
    }

    /// The progress line that the next admitted attempt shows, if one is due.
    /// It is taken from the counter before the attempt is counted.
    pub open spec fn report(self) -> Option<ProgressReport> {
        progress_report_spec(self.algorithm, self.progress, self.total)
    }

    /// The engine after a worker asked to begin an attempt: an admitted
    /// attempt is counted, a refused one changes nothing.
    pub open spec fn begin(self) -> EngineView {
        if self.admits() {
            EngineView { progress: self.progress + 1, ..self }
        } else {
            self
        }
    }

    /// Whether the end of an attempt is answered with the announcement of
    /// the secret: it matched, and the search was still running.
    pub open spec fn announces(self, matched: bool) -> bool {
        self.state == SearchState::Running && matched
    }

    /// The engine after an attempt on `word` ended: the first match settles
    /// the search on `word`, everything else changes nothing.
    pub open spec fn finish(self, word: Seq<char>, matched: bool) -> EngineView {
        if self.announces(matched) {
            EngineView { state: SearchState::Found, secret: Some(word), ..self }
        } else {
            self
        }
    }

    /// The engine after the candidates ran out: a search that was still
    /// running is exhausted.
    pub open spec fn drain(self) -> EngineView {
        if self.state == SearchState::Running {
            EngineView { state: SearchState::Exhausted, ..self }
        } else {
            self
        }
    }

    /// The engine after one event.
    pub open spec fn step(self, event: Event) -> EngineView {
        match event {
            Event::Begin => self.begin(),
            Event::Finish { word, matched } => self.finish(word, matched),
        }
    }

    /// The engine after a sequence of events, in order.
    pub open spec fn run(self, events: Seq<Event>) -> EngineView
        decreases events.len(),
    {
        if events.len() == 0 {
            self
        } else {
            self.step(events[0]).run(events.drop_first())
        }
    }

    /// How many of the events, arriving in order, are answered with the
    /// announcement of a secret.
    pub open spec fn announcements(self, events: Seq<Event>) -> nat
        decreases events.len(),
    {
        if events.len() == 0 {
            0
        } else {
            let here: nat = match events[0] {
                Event::Finish { word, matched } => if self.announces(matched) {
                    1
                } else {
                    0
                },
                Event::Begin => 0,
            };
            here + self.step(events[0]).announcements(events.drop_first())
        }
    }
}

/// The answer to a worker that asks to begin an attempt.
#[derive(Clone, Copy, Debug, PartialEq, Eq, Structural)]
pub enum Admission {
    /// Go ahead, after showing the progress line if there is one.
    Proceed(Option<ProgressReport>),
    /// Do not attempt anything: the search is settled or nothing is left.
    Halted,
}

/// The shared state of one search.
pub struct Engine {
    state: SearchState,
    progress: usize,
    total: usize,
    algorithm: HmacAlgorithm,
    secret: Option<String>,
}

impl View for Engine {
    type V = EngineView;

    closed spec fn view(&self) -> EngineView {
        EngineView {
            state: self.state,
            progress: self.progress as nat,
            total: self.total as nat,
            algorithm: self.algorithm,
            secret: match self.secret {
                Some(secret) => Some(secret@),
                None => None,
            },
        }
    }
}

impl Engine {
    #[verifier::type_invariant]
    spec fn consistent(self) -> bool {
        self@.well_formed()
    }

    /// The engine for a search over `total` candidates: running, with
    /// nothing attempted.
    pub fn new(algorithm: HmacAlgorithm, total: usize) -> (engine: Engine)
        ensures
            engine@ == EngineView::initial(algorithm, total as nat),
    {
        Engine { state: SearchState::Running, progress: 0, total, algorithm, secret: None }
    }

    /// The state of the search.
    pub fn state(&self) -> (state: SearchState)
        ensures
            state == self@.state,
            self@.well_formed(),
    {
        proof {
            use_type_invariant(self);
        }
        self.state
    }

    /// The number of attempts admitted so far.
    pub fn progress(&self) -> (progress: usize)
        ensures
            progress == self@.progress,
            progress <= self@.total,
    {
        proof {
            use_type_invariant(self);
        }
        self.progress
    }

    /// The number of candidates in the wordlist.
    pub fn total(&self) -> (total: usize)
        ensures
            total == self@.total,
    {
        self.total
    }

    /// The secret, once the search has found it.
    pub fn secret(&self) -> (secret: Option<&str>)
        ensures
            match secret {
                Some(text) => self@.secret == Some(text@),
                None => self@.secret is None,
            },
            secret is Some <==> self@.state == SearchState::Found,
    {
        proof {
            use_type_invariant(self);
        }
        match &self.secret {
            Some(text) => Some(text.as_str()),
            None => None,
        }
    }

    /// Asks to begin an attempt. While the search is running and candidates
    /// are left, the attempt is admitted and counted, and the answer carries
    /// the progress line that is due for the counter as it stood before.
    /// Otherwise nothing changes and the answer is to halt.
    pub fn begin_attempt(&mut self) -> (admission: Admission)
        ensures
            final(self)@ == old(self)@.begin(),
            admission == if old(self)@.admits() {
                Admission::Proceed(old(self)@.report())
            } else {
                Admission::Halted
            },
    {
        proof {
            use_type_invariant(&*self);
        }
        if self.state == SearchState::Running && self.progress < self.total {
            let report = progress_report(self.algorithm, self.progress, self.total);
            self.progress = self.progress + 1;
            Admission::Proceed(report)
        } else {
            Admission::Halted
        }
    }

    /// Records the end of an attempt on `word`. The first match settles the
    /// search on `word` and is answered with `true`: the caller announces
    /// the secret and ends the run. Every other call changes nothing and is
    /// answered with `false`, a later match included.
    pub fn finish_attempt(&mut self, word: &str, matched: bool) -> (announce: bool)
        ensures
            final(self)@ == old(self)@.finish(word@, matched),
            announce == old(self)@.announces(matched),
    {
        proof {
            use_type_invariant(&*self);
        }
        if self.state == SearchState::Running && matched {
            *self = Engine {
                state: SearchState::Found,
                progress: self.progress,
                total: self.total,
                algorithm: self.algorithm,
                secret: Some(word.to_owned()),
            };
            true
        } else {
            false
        }
    }

    /// Records that the candidates have run out. A search that was still
    /// running becomes exhausted, which is answered with `true`: the caller
    /// reports that no secret was found. A settled search stays as it is.
    pub fn finish(&mut self) -> (exhausted: bool)
        ensures
            final(self)@ == old(self)@.drain(),
            exhausted == (old(self)@.state == SearchState::Running),
    {
        proof {
            use_type_invariant(&*self);
        }
        if self.state == SearchState::Running {
            self.state = SearchState::Exhausted;
            true
        } else {
            false
        }
    }
}

/// How a search ended.
#[derive(Debug)]
pub enum SearchResult {
    /// The candidate with this text reproduced the signature.
    Found(String),
    /// No candidate reproduced the signature.
    Exhausted,
}

/// How a search ended, and after how many attempts.
#[derive(Debug)]
pub struct SearchOutcome {
    pub result: SearchResult,
    pub attempts: usize,
}

/// Whether `words[index]` is the first candidate that reproduces the
/// signature of `token`.
pub open spec fn is_first_match(
    algorithm: HmacAlgorithm,
    token: TokenView,
    words: Seq<Seq<char>>,
    index: int,
) -> bool {
    &&& 0 <= index < words.len()
    &&& candidate_matches(algorithm, token, words[index])
    &&& forall|j: int| 0 <= j < index ==> !candidate_matches(algorithm, token, #[trigger] words[j])
}

/// Whether no candidate reproduces the signature of `token`.
pub open spec fn none_matches(
    algorithm: HmacAlgorithm,
    token: TokenView,
    words: Seq<Seq<char>>,
) -> bool {
    forall|j: int| 0 <= j < words.len() ==> !candidate_matches(algorithm, token, #[trigger] words[j])
}

/// Searches `words` in order for the key of `token` and stops at the first
/// candidate that reproduces the signature. The result is that candidate's
/// text, or exhaustion when every candidate was attempted in vain; the
/// number of attempts counts the matching candidate and those before it.
pub fn search(factory: &VerifierFactory, token: &Token, words: &Vec<&str>) -> (outcome:
    SearchOutcome)
    ensures
        match outcome.result {
            SearchResult::Found(secret) => {
                &&& is_first_match(
                    factory.algorithm_spec(),
                    token@,
                    texts(words@),
                    outcome.attempts - 1,
                )
                &&& secret@ == texts(words@)[outcome.attempts - 1]
            },
            SearchResult::Exhausted => {
                &&& none_matches(factory.algorithm_spec(), token@, texts(words@))
                &&& outcome.attempts == words@.len()
            },
        },
{
    let mut engine = Engine::new(factory.algorithm(), words.len());
    let mut index: usize = 0;
    while index < words.len()
        invariant
            index <= words@.len(),
            engine@ == (EngineView {
                progress: index as nat,
                ..EngineView::initial(factory.algorithm_spec(), words@.len())
            }),
            forall|j: int|
                0 <= j < index ==> !candidate_matches(
                    factory.algorithm_spec(),
                    token@,
                    #[trigger] texts(words@)[j],
                ),
        decreases words@.len() - index,
    {
        let word = words[index];
        assert(texts(words@)[index as int] == word@);
        let admission = engine.begin_attempt();
        assert(admission is Proceed);
        let matched = attempt(factory, token, word);
        if engine.finish_attempt(word, matched) {
            return SearchOutcome {
                result: SearchResult::Found(word.to_owned()),
                attempts: engine.progress(),
            };
        }
        index += 1;
    }
    let exhausted = engine.finish();
    assert(exhausted);
    SearchOutcome { result: SearchResult::Exhausted, attempts: engine.progress() }
}

} // verus!
