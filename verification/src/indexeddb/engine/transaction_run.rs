//! Running the requests of a transaction one after another.

use std::collections::VecDeque;

use vstd::prelude::*;

use crate::indexeddb::engine::dispatch::{refuse_all, KvsOperation};
use crate::indexeddb::engine::job::Reply;
use crate::indexeddb::engine::model::{BackendError, SqlError};

verus! {

/// The channels of the requests, in order.
pub open spec fn channels_of(requests: Seq<KvsOperation>) -> Seq<u64> {
    requests.map_values(|request: KvsOperation| request.callback)
}

/// How far a transaction has come.
#[derive(Debug)]
pub struct TransactionRun {
    /// The channels of the requests that are answered, in order.
    pub answered: Vec<u64>,
    /// The channel of the request that is being carried out.
    pub current: Option<u64>,
    /// The requests that follow it, in order.
    pub rest: VecDeque<KvsOperation>,
}

/// What comes next.
#[derive(Debug)]
pub enum RunNext {
    /// The request is carried out.
    CarryOut(KvsOperation),
    /// The transaction is complete.
    Complete,
}

/// What is sent, each answer with the channel that it goes out on, and what comes after that.
#[derive(Debug)]
pub struct RunStep {
    pub sends: Vec<(u64, Reply)>,
    pub next: RunNext,
}

/// What goes out for an answered request: a schema request hears of a failure only.
pub open spec fn told(channel: u64, reply: Reply) -> Seq<(u64, Reply)> {
    if reply matches Reply::Schema(None) {
        seq![]
    } else {
        seq![(channel, reply)]
    }
}

/// The run goes on with the first of the requests that are left, and is complete where none is.
pub open spec fn proceeds(rest: Seq<KvsOperation>, run: TransactionRun, next: RunNext) -> bool {
    if rest.len() == 0 {
        run.current is None && run.rest@.len() == 0 && next is Complete
    } else {
        run.current == Some(rest[0].callback) && run.rest@ == rest.drop_first() && next
            == RunNext::CarryOut(rest[0])
    }
}

/// The answer refuses a request with a database error of this text.
pub open spec fn refuses(answer: (u64, Reply), channel: u64, text: Seq<char>) -> bool {
    answer.0 == channel && (answer.1 matches Reply::Refused(BackendError::DbErr(own)) && own@
        == text)
}

/// How a transaction begins. `prepared` says whether its connection could be prepared; where it
/// could not, every request is refused, and the transaction is complete.
pub open spec fn begins(
    requests: Seq<KvsOperation>,
    prepared: Result<(), SqlError>,
    run: TransactionRun,
    step: RunStep,
) -> bool {
    match prepared {
        Ok(_) => {
            &&& run.answered@ == Seq::<u64>::empty()
            &&& step.sends@ == Seq::<(u64, Reply)>::empty()
            &&& proceeds(requests, run, step.next)
        },
        Err(error) => {
            &&& run.answered@ == channels_of(requests)
            &&& step.sends@.len() == requests.len()
            &&& forall|i: int|
                0 <= i < requests.len() ==> refuses(
                    #[trigger] step.sends@[i],
                    requests[i].callback,
                    error.description@,
                )
            &&& proceeds(seq![], run, step.next)
        },
    }
}

/// How a transaction goes on once the current request is answered, whatever the answer is.
pub open spec fn goes_on(
    before: TransactionRun,
    reply: Reply,
    after: TransactionRun,
    step: RunStep,
) -> bool {
    &&& before.current matches Some(channel) && {
        &&& after.answered@ == before.answered@.push(channel)
        &&& step.sends@ == told(channel, reply)
    }
    &&& proceeds(before.rest@, after, step.next)
}

impl TransactionRun {
    /// Takes the next request up, if there is one.
    fn proceed(&mut self) -> (next: RunNext)
        ensures
            proceeds(old(self).rest@, *final(self), next),
            final(self).answered == old(self).answered,
    {
        match self.rest.pop_front() {
            Some(request) => {
                self.current = Some(request.callback);
                RunNext::CarryOut(request)
            },
            None => {
                self.current = None;
                RunNext::Complete
            },
        }
    }

    /// Begins a transaction.
    pub fn begin(requests: Vec<KvsOperation>, prepared: Result<(), SqlError>) -> (begun: (
        TransactionRun,
        RunStep,
    ))
        ensures
            begins(requests@, prepared, begun.0, begun.1),
    {
        let mut run = TransactionRun { answered: Vec::new(), current: None, rest: VecDeque::new() };
        let mut sends: Vec<(u64, Reply)> = Vec::new();
        assert(run.rest@ =~= requests@.take(0));
        match prepared {
            Ok(_) => {
                for request in it: requests
                    invariant
                        it.seq() == requests@,
                        run.rest@ == requests@.take(it.index() as int),
                        run.answered@ == Seq::<u64>::empty(),
                {
                    run.rest.push_back(request);
                    assert(run.rest@ =~= requests@.take(it.index() + 1));
                }
                assert(run.rest@ =~= requests@);
            },
            Err(error) => {
                let refusals = refuse_all(&requests, &error);
                assert(run.answered@ =~= channels_of(requests@).take(0));
                for refusal in it: refusals
                    invariant
                        it.seq() == refusals@,
                        refusals@.len() == requests@.len(),
                        forall|i: int|
                            0 <= i < requests@.len() ==> (#[trigger] refusals@[i]).0
                                == requests@[i].callback && (
                            refusals@[i].1 matches BackendError::DbErr(text) && text@
                                == error.description@),
                        run.rest@.len() == 0,
                        run.answered@ == channels_of(requests@).take(it.index() as int),
                        sends@.len() == it.index(),
                        forall|i: int|
                            0 <= i < it.index() ==> refuses(
                                #[trigger] sends@[i],
                                requests@[i].callback,
                                error.description@,
                            ),
                {
                    assert(refusal == refusals@[it.index() as int]);
                    run.answered.push(refusal.0);
                    assert(run.answered@ =~= channels_of(requests@).take(it.index() + 1));
                    sends.push((refusal.0, Reply::Refused(refusal.1)));
                }
                assert(run.answered@ =~= channels_of(requests@));
                assert(run.rest@ =~= seq![]);
            },
        }
        let next = run.proceed();
        (run, RunStep { sends, next })
    }

    /// Takes the answer to the current request, and goes on with the next one.
    pub fn resume(&mut self, reply: Reply) -> (step: RunStep)
        requires
            old(self).current is Some,
        ensures
            goes_on(*old(self), reply, *final(self), step),
    {
        let mut sends: Vec<(u64, Reply)> = Vec::new();
        match self.current {
            Some(channel) => {
                self.answered.push(channel);
                match reply {
                    Reply::Schema(None) => {},
                    reply => sends.push((channel, reply)),
                }
                assert(sends@ =~= told(channel, reply));
            },
            None => {},
        }
        let next = self.proceed();
        RunStep { sends, next }
    }
}

/// The states and steps are those of a transaction whose requests got these answers so far.
pub open spec fn is_run(
    requests: Seq<KvsOperation>,
    replies: Seq<Reply>,
    runs: Seq<TransactionRun>,
    steps: Seq<RunStep>,
) -> bool {
    &&& runs.len() == replies.len() + 1
    &&& steps.len() == runs.len()
    &&& begins(requests, Ok(()), runs[0], steps[0])
    &&& forall|i: int|
        0 <= i < replies.len() ==> goes_on(
            runs[i],
            #[trigger] replies[i],
            runs[i + 1],
            steps[i + 1],
        )
}

/// The requests of a transaction are carried out one by one and in order, whatever their answers
/// are, and the transaction is complete once each of them is answered: not before, and not again.
pub proof fn every_request_is_answered_once(
    requests: Seq<KvsOperation>,
    replies: Seq<Reply>,
    runs: Seq<TransactionRun>,
    steps: Seq<RunStep>,
    i: int,
)
    requires
        is_run(requests, replies, runs, steps),
        0 <= i < steps.len(),
    ensures
        i <= requests.len(),
        runs[i].answered@ == channels_of(requests).take(i),
        i < requests.len() ==> steps[i].next == RunNext::CarryOut(requests[i]),
        i == requests.len() ==> steps[i].next is Complete && i == steps.len() - 1,
        i > 0 ==> steps[i].sends@ == told(requests[i - 1].callback, replies[i - 1]),
    decreases i,
{
    run_at(requests, replies, runs, steps, i);
    if i > 0 {
        run_at(requests, replies, runs, steps, i - 1);
        assert(goes_on(runs[i - 1], replies[i - 1], runs[i], steps[i]));
    }
    if i < steps.len() - 1 {
        assert(goes_on(runs[i], replies[i], runs[i + 1], steps[i + 1]));
    }
}

/// Where a run stands after `i` answers.
proof fn run_at(
    requests: Seq<KvsOperation>,
    replies: Seq<Reply>,
    runs: Seq<TransactionRun>,
    steps: Seq<RunStep>,
    i: int,
)
    requires
        is_run(requests, replies, runs, steps),
        0 <= i < steps.len(),
    ensures
        i <= requests.len(),
        runs[i].answered@ == channels_of(requests).take(i),
        proceeds(requests.skip(i), runs[i], steps[i].next),
    decreases i,
{
    if i == 0 {
        assert(requests.skip(0) =~= requests);
        assert(channels_of(requests).take(0) =~= Seq::<u64>::empty());
    } else {
        run_at(requests, replies, runs, steps, i - 1);
        assert(goes_on(runs[i - 1], replies[i - 1], runs[i], steps[i]));
        let left = requests.skip(i - 1);
        assert(left.len() > 0);
        assert(left.drop_first() =~= requests.skip(i));
        assert(left[0] == requests[i - 1]);
        assert(channels_of(requests).take(i) =~= channels_of(requests).take(i - 1).push(
            requests[i - 1].callback,
        ));
    }
}

/// A transaction that could not be prepared refuses every request, each on its own channel and in
/// its order, and is complete; one that could be prepared tells nobody anything yet.
pub proof fn unprepared_transactions_refuse_everything(
    requests: Seq<KvsOperation>,
    prepared: Result<(), SqlError>,
    run: TransactionRun,
    step: RunStep,
    i: int,
)
    requires
        begins(requests, prepared, run, step),
    ensures
        prepared is Ok ==> step.sends@.len() == 0 && (step.next is Complete <==> requests.len()
            == 0),
        prepared is Ok && requests.len() > 0 ==> step.next == RunNext::CarryOut(requests[0])
            && run.current == Some(requests[0].callback) && run.rest@.len() == requests.len() - 1,
        prepared matches Err(error) ==> {
            &&& step.sends@.len() == requests.len()
            &&& step.next is Complete
            &&& 0 <= i < requests.len() ==> step.sends@[i].0 == requests[i].callback && (
            step.sends@[i].1 matches Reply::Refused(BackendError::DbErr(text)) && text@
                == error.description@)
        },
{
    if let Err(error) = prepared {
        if 0 <= i < requests.len() {
            assert(refuses(step.sends@[i], requests[i].callback, error.description@));
        }
    }
}

/// A reply is sent once, on the channel of its request, unless it is that a change of the schema went
/// well, which nobody waits for.
pub proof fn replies_are_sent_once(channel: u64, reply: Reply)
    ensures
        reply == Reply::Schema(None) <==> told(channel, reply).len() == 0,
        reply != Reply::Schema(None) ==> told(channel, reply).len() == 1 && told(channel, reply)[0].0
            == channel && told(channel, reply)[0].1 == reply,
{
}

} // verus!
