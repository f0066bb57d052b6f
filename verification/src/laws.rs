//! What holds of a search whatever the order in which the workers' calls
//! reach the engine.
//!
//! A run is a sequence of events: each `Begin` is a worker asking to start
//! an attempt, each `Finish` a worker handing in what its attempt gave. With
//! one worker the events alternate in wordlist order; with several they
//! interleave in any way. The laws below speak of every such sequence.

use vstd::prelude::*;
use crate::algorithm::HmacAlgorithm;
use crate::engine::{
    candidate_matches, is_first_match, none_matches, EngineView, Event, SearchState,
};
use crate::token::TokenView;

verus! {

/// Whether `event` is the end of an attempt on `word`.
pub open spec fn finishes(event: Event, word: Seq<char>) -> bool {
    event matches Event::Finish { word: attempted, .. } && attempted == word
}

/// Whether `event` hands in what the keyed hash says of its candidate.
pub open spec fn truthful(algorithm: HmacAlgorithm, token: TokenView, event: Event) -> bool {
    event matches Event::Finish { word, matched } ==> matched == candidate_matches(
        algorithm,
        token,
        word,
    )
}

/// Whether every attempt in `events` hands in what the keyed hash says of
/// its candidate.
pub open spec fn faithful(algorithm: HmacAlgorithm, token: TokenView, events: Seq<Event>) -> bool {
    forall|i: int| 0 <= i < events.len() ==> truthful(algorithm, token, #[trigger] events[i])
}

/// Whether an attempt on `word` ends somewhere in `events`.
pub open spec fn attempted(events: Seq<Event>, word: Seq<char>) -> bool {
    exists|i: int| 0 <= i < events.len() && finishes(#[trigger] events[i], word)
}

/// Whether some attempt in `events` is on a candidate that reproduces the
/// signature of `token`.
pub open spec fn match_attempted(
    algorithm: HmacAlgorithm,
    token: TokenView,
    events: Seq<Event>,
) -> bool {
    exists|i: int|
        0 <= i < events.len() && (#[trigger] events[i] matches Event::Finish { word, .. }
            && candidate_matches(algorithm, token, word))
}

/// The number of `Begin` events in `events`.
pub open spec fn begins(events: Seq<Event>) -> nat
    decreases events.len(),
{
    if events.len() == 0 {
        0
    } else {
        let here: nat = if events[0] is Begin {
            1
        } else {
            0
        };
        here + begins(events.drop_first())
    }
}

/// The smaller of two numbers.
pub open spec fn at_most(a: nat, b: nat) -> nat {
    if a <= b {
        a
    } else {
        b
    }
}

/// A settled engine is deaf to events: it stays as it is and announces
/// nothing more.
pub proof fn lemma_settled_stays(engine: EngineView, events: Seq<Event>)
    requires
        engine.state != SearchState::Running,
    ensures
        engine.run(events) == engine,
        engine.announcements(events) == 0,
    decreases events.len(),
{
    if events.len() > 0 {
        assert(engine.step(events[0]) == engine);
        lemma_settled_stays(engine, events.drop_first());
    }
}

/// Every engine that events can reach is well formed: it holds a secret
/// exactly when it has found one, it has admitted no more attempts than
/// there are candidates, and its counter never goes back.
pub proof fn law_events_keep_well_formed(engine: EngineView, events: Seq<Event>)
    requires
        engine.well_formed(),
    ensures
        engine.run(events).well_formed(),
        engine.run(events).total == engine.total,
        engine.run(events).algorithm == engine.algorithm,
        engine.run(events).progress >= engine.progress,
    decreases events.len(),
{
    if events.len() > 0 {
        law_events_keep_well_formed(engine.step(events[0]), events.drop_first());
    }
}

/// What a running engine has become after a faithful run. If a matching
/// candidate was attempted, the search is found, the secret is an attempted
/// candidate that matches, and exactly one event was answered with its
/// announcement. If none was, the search is still running, nothing was
/// announced, and every `Begin` was counted as long as candidates were left.
pub proof fn lemma_faithful_run(
    algorithm: HmacAlgorithm,
    token: TokenView,
    engine: EngineView,
    events: Seq<Event>,
)
    requires
        engine.state == SearchState::Running,
        engine.well_formed(),
        faithful(algorithm, token, events),
    ensures
        match_attempted(algorithm, token, events) ==> {
            &&& engine.run(events).state == SearchState::Found
            &&& engine.run(events).secret is Some
            &&& attempted(events, engine.run(events).secret->0)
            &&& candidate_matches(algorithm, token, engine.run(events).secret->0)
            &&& engine.announcements(events) == 1
        },
        !match_attempted(algorithm, token, events) ==> {
            &&& engine.run(events).state == SearchState::Running
            &&& engine.run(events).secret is None
            &&& engine.run(events).progress == at_most(
                engine.total,
                engine.progress + begins(events),
            )
            &&& engine.announcements(events) == 0
        },
    decreases events.len(),
{
    if events.len() == 0 {
    } else {
        let first = events[0];
        let rest = events.drop_first();
        let next = engine.step(first);
        assert(truthful(algorithm, token, first));
        assert forall|i: int| 0 <= i < rest.len() implies truthful(
            algorithm,
            token,
            #[trigger] rest[i],
        ) by {
            assert(rest[i] == events[i + 1]);
        }
        let matched_here = first matches Event::Finish { word, .. } && candidate_matches(
            algorithm,
            token,
            word,
        );
        if matched_here {
            let word = first->word;
            assert(match_attempted(algorithm, token, events));
            assert(next.state == SearchState::Found && next.secret == Some(word));
            lemma_settled_stays(next, rest);
            assert(finishes(events[0], word));
        } else {
            assert(next.state == SearchState::Running);
            lemma_faithful_run(algorithm, token, next, rest);
            if match_attempted(algorithm, token, rest) {
                let i = choose|i: int|
                    0 <= i < rest.len() && (#[trigger] rest[i] matches Event::Finish { word, .. }
                        && candidate_matches(algorithm, token, word));
                assert(events[i + 1] == rest[i]);
                assert(match_attempted(algorithm, token, events));
                let secret = next.run(rest).secret->0;
                let j = choose|j: int| 0 <= j < rest.len() && finishes(#[trigger] rest[j], secret);
                assert(events[j + 1] == rest[j]);
                assert(finishes(events[j + 1], secret));
            } else {
                if match_attempted(algorithm, token, events) {
                    let i = choose|i: int|
                        0 <= i < events.len() && (#[trigger] events[i] matches Event::Finish {
                            word,
                            ..
                        } && candidate_matches(algorithm, token, word));
                    assert(i > 0);
                    assert(rest[i - 1] == events[i]);
                    assert(false);
                }
            }
        }
    }
}

/// The true key is reported, whatever the interleaving: in a faithful run
/// in which the key was attempted, and in which no attempted candidate with
/// another text reproduces the signature, the search ends found with the
/// key's own text as the secret.
pub proof fn law_true_key_is_reported(
    algorithm: HmacAlgorithm,
    token: TokenView,
    total: nat,
    events: Seq<Event>,
    key: Seq<char>,
)
    requires
        faithful(algorithm, token, events),
        attempted(events, key),
        candidate_matches(algorithm, token, key),
        forall|word: Seq<char>|
            #[trigger] attempted(events, word) && candidate_matches(algorithm, token, word)
                ==> word == key,
    ensures
        EngineView::initial(algorithm, total).run(events).drain().state == SearchState::Found,
        EngineView::initial(algorithm, total).run(events).drain().secret == Some(key),
{
    let i = choose|i: int| 0 <= i < events.len() && finishes(#[trigger] events[i], key);
    assert(events[i] matches Event::Finish { word, .. } && candidate_matches(
        algorithm,
        token,
        word,
    ));
    assert(match_attempted(algorithm, token, events));
    lemma_faithful_run(algorithm, token, EngineView::initial(algorithm, total), events);
}

/// Without the true key the search is exhausted: in a faithful run in which
/// no attempted candidate reproduces the signature, the search ends
/// exhausted without a secret, and the counter has counted every attempt
/// that was begun, up to the number of candidates. When as many attempts
/// were begun as there are candidates, the counter reads that number.
pub proof fn law_exhausted_without_match(
    algorithm: HmacAlgorithm,
    token: TokenView,
    total: nat,
    events: Seq<Event>,
)
    requires
        faithful(algorithm, token, events),
        !match_attempted(algorithm, token, events),
    ensures
        EngineView::initial(algorithm, total).run(events).drain().state == SearchState::Exhausted,
        EngineView::initial(algorithm, total).run(events).drain().secret is None,
        EngineView::initial(algorithm, total).run(events).drain().progress == at_most(
            total,
            begins(events),
        ),
        begins(events) == total ==> EngineView::initial(algorithm, total).run(
            events,
        ).drain().progress == total,
{
    lemma_faithful_run(algorithm, token, EngineView::initial(algorithm, total), events);
}

/// Two runs agree: two faithful runs on the same token, in each of which
/// the key was attempted and no attempted candidate with another text
/// reproduces the signature, end with the same secret.
pub proof fn law_runs_agree(
    algorithm: HmacAlgorithm,
    token: TokenView,
    total: nat,
    first: Seq<Event>,
    second: Seq<Event>,
    key: Seq<char>,
)
    requires
        faithful(algorithm, token, first),
        faithful(algorithm, token, second),
        attempted(first, key),
        attempted(second, key),
        candidate_matches(algorithm, token, key),
        forall|word: Seq<char>|
            #[trigger] attempted(first, word) && candidate_matches(algorithm, token, word) ==> word
                == key,
        forall|word: Seq<char>|
            #[trigger] attempted(second, word) && candidate_matches(algorithm, token, word)
                ==> word == key,
    ensures
        EngineView::initial(algorithm, total).run(first).drain().state == SearchState::Found,
        EngineView::initial(algorithm, total).run(second).drain().state == SearchState::Found,
        EngineView::initial(algorithm, total).run(first).drain().secret == EngineView::initial(
            algorithm,
            total,
        ).run(second).drain().secret,
{
    law_true_key_is_reported(algorithm, token, total, first, key);
    law_true_key_is_reported(algorithm, token, total, second, key);
}

/// One outcome per run: however the events arrive, and whatever they hand
/// in, at most one of them is answered with the announcement of a secret,
/// and that happens exactly when the search ends found. A search that does
/// not end found is still running when the candidates run out, and is then
/// reported exhausted: every run reports exactly once.
pub proof fn law_single_announcement(algorithm: HmacAlgorithm, total: nat, events: Seq<Event>)
    ensures
        EngineView::initial(algorithm, total).announcements(events) <= 1,
        EngineView::initial(algorithm, total).announcements(events) == 1
            <==> EngineView::initial(algorithm, total).run(events).state == SearchState::Found,
        EngineView::initial(algorithm, total).announcements(events) == 0
            <==> EngineView::initial(algorithm, total).run(events).state == SearchState::Running,
        EngineView::initial(algorithm, total).run(events).drain().state != SearchState::Running,
{
    lemma_announcements(EngineView::initial(algorithm, total), events);
}

/// From a running engine, the events answered with an announcement number
/// one if the run ends found and none if it is still running; it ends in
/// one of these two states.
pub proof fn lemma_announcements(engine: EngineView, events: Seq<Event>)
    requires
        engine.state == SearchState::Running,
    ensures
        engine.run(events).state == SearchState::Found ==> engine.announcements(events) == 1,
        engine.run(events).state == SearchState::Running ==> engine.announcements(events) == 0,
        engine.run(events).state != SearchState::Exhausted,
    decreases events.len(),
{
    if events.len() > 0 {
        let next = engine.step(events[0]);
        if next.state == SearchState::Running {
            lemma_announcements(next, events.drop_first());
        } else {
            lemma_settled_stays(next, events.drop_first());
        }
    }
}

/// A single worker reports the true key too: when the key stands in the
/// wordlist and no candidate with another text reproduces the signature,
/// some candidate matches, and the first that does has the key's text.
pub proof fn law_first_match_is_true_key(
    algorithm: HmacAlgorithm,
    token: TokenView,
    words: Seq<Seq<char>>,
    key: Seq<char>,
    index: int,
)
    requires
        words.contains(key),
        candidate_matches(algorithm, token, key),
        forall|j: int|
            0 <= j < words.len() && candidate_matches(algorithm, token, #[trigger] words[j])
                ==> words[j] == key,
    ensures
        !none_matches(algorithm, token, words),
        is_first_match(algorithm, token, words, index) ==> words[index] == key,
{
    let at = choose|at: int| 0 <= at < words.len() && words[at] == key;
    assert(candidate_matches(algorithm, token, words[at]));
}

} // verus!
