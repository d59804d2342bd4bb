//! The withdrawal: what is decided between the calls into the host that load
//! the stream, check the caller's authorization, read the clock and store the
//! stream again.
//!
//! The library reaches no store, no clock and no signature. A withdrawal is a
//! value that says what the host has to do next; the host does it and hands
//! the answer to [`Withdrawal::advance`], until the withdrawal says that the
//! stream is to be stored, or that it is aborted.

use vstd::prelude::*;
use crate::error::PaymentStreamingError;
use crate::stream::Stream;
use crate::vesting::{
    available, calculate_available, is_amount, lemma_available_at_start, lemma_available_of_valid,
    lemma_vested_between, lemma_vested_grows,
};

verus! {

/// What becomes of `stream` when its recipient, whom the host has found
/// authorized, asks for `amount` once `elapsed` has passed since the start:
/// the stream with `amount` more withdrawn, or the reason why nothing is paid.
///
/// The tests come in this order: the stream is active; what is available is
/// a value of the amount type; `amount` is no more than what is available,
/// and only then, `amount` is positive. So an amount above what is available
/// is always refused for want of funds, be it zero or negative itself.
pub open spec fn settled(stream: Stream, elapsed: u64, amount: i128) -> Result<
    Stream,
    PaymentStreamingError,
> {
    let free = available(stream, elapsed);
    if !stream.is_active {
        Err(PaymentStreamingError::StreamNotActive)
    } else if !is_amount(free) {
        Err(PaymentStreamingError::ArithmeticError)
    } else if amount > free {
        Err(PaymentStreamingError::InsufficientFunds)
    } else if amount <= 0 {
        Err(PaymentStreamingError::InvalidAmount)
    } else {
        Ok(stream.with_withdrawn((stream.withdrawn + amount) as i128))
    }
}

/// The time that has passed at `now` since `stream` started.
pub open spec fn elapsed_at(stream: Stream, now: u64) -> u64
    recommends
        now >= stream.start_time,
{
    (now - stream.start_time) as u64
}

/// What a whole withdrawal comes to, given everything the host answers: the
/// record `found` under the identifier, whether the caller is `authorized` to
/// act for its recipient, and the time `now`.
///
/// The checks come in this order: the stream exists, the caller is authorized,
/// the stream is active, and only then the amount is looked at, as [`settled`]
/// says.
pub open spec fn withdrawal_outcome(
    found: Option<Stream>,
    authorized: bool,
    now: u64,
    amount: i128,
) -> Result<Stream, PaymentStreamingError> {
    match found {
        None => Err(PaymentStreamingError::StreamNotFound),
        Some(stream) => if !authorized {
            Err(PaymentStreamingError::Unauthorized)
        } else {
            settled(stream, elapsed_at(stream, now), amount)
        },
    }
}

impl Stream {
    /// Records that the recipient, whom the host has found authorized, takes
    /// `amount` out once `elapsed` has passed since the start. On an error the
    /// stream is left as it was.
    pub fn withdraw(&mut self, elapsed: u64, amount: i128) -> (result: Result<
        (),
        PaymentStreamingError,
    >)
        ensures
            result is Ok <==> settled(*old(self), elapsed, amount) is Ok,
            result is Ok ==> *final(self) == settled(*old(self), elapsed, amount)->Ok_0,
            result is Err ==> *final(self) == *old(self) && result->Err_0 == settled(
                *old(self),
                elapsed,
                amount,
            )->Err_0,
            result is Ok ==> final(self).withdrawn == old(self).withdrawn + amount,
            result is Ok && old(self).is_valid() ==> final(self).is_valid(),
    {
        if !self.is_active {
            return Err(PaymentStreamingError::StreamNotActive);
        }
        let free: i128 = match calculate_available(self, elapsed) {
            Ok(free) => free,
            Err(error) => {
                return Err(error);
            },
        };
        if amount > free {
            return Err(PaymentStreamingError::InsufficientFunds);
        }
        if amount <= 0 {
            return Err(PaymentStreamingError::InvalidAmount);
        }
        proof {
            lemma_settled_total(*self, elapsed, amount);
        }
        self.withdrawn = self.withdrawn + amount;
        Ok(())
    }
}

/// A withdrawal between two calls into the host: what the host has to do
/// next, and what the withdrawal has learned so far.
#[derive(Debug, PartialEq, Eq)]
pub enum Withdrawal {
    /// The host is to look up the record stored under `stream_id`.
    LoadStream { stream_id: [u8; 32], amount: i128 },
    /// The host is to check that the caller acts for `stream.recipient`.
    RequireAuth { stream_id: [u8; 32], stream: Stream, amount: i128 },
    /// The host is to read the clock.
    ReadClock { stream_id: [u8; 32], stream: Stream, amount: i128 },
    /// The withdrawal succeeded: the host is to store `stream` under
    /// `stream_id` in place of the record it loaded.
    StoreStream { stream_id: [u8; 32], stream: Stream },
    /// The withdrawal is aborted and nothing is to be stored.
    Abort { error: PaymentStreamingError },
}

/// What the host answers.
#[derive(Debug, PartialEq, Eq)]
pub enum HostReply {
    /// The record stored under the identifier, if there is one.
    Loaded(Option<Stream>),
    /// Whether the caller acts for the recipient.
    Authorized(bool),
    /// The current time.
    Clock(u64),
}

impl Clone for Withdrawal {
    fn clone(&self) -> (copy: Withdrawal)
        ensures
            copy == *self,
    {
        match self {
            Withdrawal::LoadStream { stream_id, amount } => Withdrawal::LoadStream {
                stream_id: *stream_id,
                amount: *amount,
            },
            Withdrawal::RequireAuth { stream_id, stream, amount } => Withdrawal::RequireAuth {
                stream_id: *stream_id,
                stream: stream.clone(),
                amount: *amount,
            },
            Withdrawal::ReadClock { stream_id, stream, amount } => Withdrawal::ReadClock {
                stream_id: *stream_id,
                stream: stream.clone(),
                amount: *amount,
            },
            Withdrawal::StoreStream { stream_id, stream } => Withdrawal::StoreStream {
                stream_id: *stream_id,
                stream: stream.clone(),
            },
            Withdrawal::Abort { error } => Withdrawal::Abort { error: *error },
        }
    }
}

impl Clone for HostReply {
    fn clone(&self) -> (copy: HostReply)
        ensures
            copy == *self,
    {
        match self {
            HostReply::Loaded(Some(stream)) => HostReply::Loaded(Some(stream.clone())),
            HostReply::Loaded(None) => HostReply::Loaded(None),
            HostReply::Authorized(granted) => HostReply::Authorized(*granted),
            HostReply::Clock(now) => HostReply::Clock(*now),
        }
    }
}

impl Withdrawal {
    /// Whether `reply` can be taken in this state: the clock must not show a
    /// time before the stream's start.
    pub open spec fn admits(self, reply: HostReply) -> bool {
        self matches Withdrawal::ReadClock { stream, .. } ==> (reply matches HostReply::Clock(now)
            ==> now >= stream.start_time)
    }

    /// The withdrawal after `reply`. A reply that does not answer what the
    /// host was asked for changes nothing, and neither does any reply to a
    /// finished withdrawal.
    pub open spec fn next(self, reply: HostReply) -> Withdrawal {
        match (self, reply) {
            (Withdrawal::LoadStream { stream_id, amount }, HostReply::Loaded(found)) => match found {
                Some(stream) => Withdrawal::RequireAuth { stream_id, stream, amount },
                None => Withdrawal::Abort { error: PaymentStreamingError::StreamNotFound },
            },
            (
                Withdrawal::RequireAuth { stream_id, stream, amount },
                HostReply::Authorized(granted),
            ) => if !granted {
                Withdrawal::Abort { error: PaymentStreamingError::Unauthorized }
            } else if !stream.is_active {
                Withdrawal::Abort { error: PaymentStreamingError::StreamNotActive }
            } else {
                Withdrawal::ReadClock { stream_id, stream, amount }
            },
            (Withdrawal::ReadClock { stream_id, stream, amount }, HostReply::Clock(now)) => match settled(
                stream,
                elapsed_at(stream, now),
                amount,
            ) {
                Ok(paid) => Withdrawal::StoreStream { stream_id, stream: paid },
                Err(error) => Withdrawal::Abort { error },
            },
            _ => self,
        }
    }

    /// Takes the host's answer and decides what comes next.
    pub fn advance(self, reply: HostReply) -> (next: Withdrawal)
        requires
            self.admits(reply),
        ensures
            next == self.next(reply),
    {
        match self {
            Withdrawal::LoadStream { stream_id, amount } => match reply {
                HostReply::Loaded(Some(stream)) => Withdrawal::RequireAuth {
                    stream_id,
                    stream,
                    amount,
                },
                HostReply::Loaded(None) => Withdrawal::Abort {
                    error: PaymentStreamingError::StreamNotFound,
                },
                _ => Withdrawal::LoadStream { stream_id, amount },
            },
            Withdrawal::RequireAuth { stream_id, stream, amount } => match reply {
                HostReply::Authorized(granted) => if !granted {
                    Withdrawal::Abort { error: PaymentStreamingError::Unauthorized }
                } else if !stream.is_active {
                    Withdrawal::Abort { error: PaymentStreamingError::StreamNotActive }
                } else {
                    Withdrawal::ReadClock { stream_id, stream, amount }
                },
                _ => Withdrawal::RequireAuth { stream_id, stream, amount },
            },
            Withdrawal::ReadClock { stream_id, stream, amount } => match reply {
                HostReply::Clock(now) => {
                    let mut stream = stream;
                    let elapsed: u64 = now - stream.start_time;
                    match stream.withdraw(elapsed, amount) {
                        Ok(()) => Withdrawal::StoreStream { stream_id, stream },
                        Err(error) => Withdrawal::Abort { error },
                    }
                },
                _ => Withdrawal::ReadClock { stream_id, stream, amount },
            },
            finished => finished,
        }
    }
}

/// Begins the withdrawal of `amount` from the stream stored under
/// `stream_id`: the first thing the host has to do is to load that stream.
pub fn withdraw_from_stream(stream_id: [u8; 32], amount: i128) -> (begun: Withdrawal)
    ensures
        begun == (Withdrawal::LoadStream { stream_id, amount }),
{
    Withdrawal::LoadStream { stream_id, amount }
}

/// A withdrawal that succeeds adds the amount to what was withdrawn and
/// changes nothing else. The sum is no more than the schedule has unlocked,
/// so it is a value of the amount type.
pub proof fn lemma_settled_total(stream: Stream, elapsed: u64, amount: i128)
    requires
        settled(stream, elapsed, amount) is Ok,
    ensures
        is_amount(stream.withdrawn + amount),
        settled(stream, elapsed, amount)->Ok_0.withdrawn == stream.withdrawn + amount,
        settled(stream, elapsed, amount)->Ok_0.withdrawn > stream.withdrawn,
        stream.is_valid() ==> settled(stream, elapsed, amount)->Ok_0.is_valid(),
{
    lemma_vested_between(stream.total_amount as int, stream.duration as int, elapsed as int);
}

/// A valid stream is valid after every withdrawal that succeeds: what is
/// withdrawn stays between zero and the total.
pub proof fn lemma_withdrawal_keeps_valid(
    stream: Stream,
    authorized: bool,
    now: u64,
    amount: i128,
)
    requires
        stream.is_valid(),
        now >= stream.start_time,
        withdrawal_outcome(Some(stream), authorized, now, amount) is Ok,
    ensures
        withdrawal_outcome(Some(stream), authorized, now, amount)->Ok_0.is_valid(),
{
    lemma_settled_total(stream, elapsed_at(stream, now), amount);
}

/// After a withdrawal from a valid stream, at that time and at every later
/// one, what is available is not negative and no more than what is left of
/// the total.
pub proof fn lemma_available_after_withdrawal(
    stream: Stream,
    elapsed: u64,
    amount: i128,
    later: u64,
)
    requires
        stream.is_valid(),
        settled(stream, elapsed, amount) is Ok,
        later >= elapsed,
    ensures
        ({
            let paid = settled(stream, elapsed, amount)->Ok_0;
            0 <= available(paid, later) <= paid.total_amount - paid.withdrawn
        }),
{
    let paid = settled(stream, elapsed, amount)->Ok_0;
    lemma_settled_total(stream, elapsed, amount);
    lemma_available_of_valid(paid, later);
    lemma_vested_grows(
        stream.total_amount as int,
        stream.duration as int,
        elapsed as int,
        later as int,
    );
}

/// Of an active stream whose available amount is a value of the amount type,
/// a withdrawal is refused for want of funds exactly when more is asked for
/// than is available, and granted exactly when the amount is positive and no
/// more than that.
pub proof fn lemma_funds_decide(stream: Stream, elapsed: u64, amount: i128)
    requires
        stream.is_active,
        is_amount(available(stream, elapsed)),
    ensures
        settled(stream, elapsed, amount) == Err::<Stream, PaymentStreamingError>(
            PaymentStreamingError::InsufficientFunds,
        ) <==> amount > available(stream, elapsed),
        settled(stream, elapsed, amount) is Ok <==> 0 < amount <= available(stream, elapsed),
        settled(stream, elapsed, amount) == Err::<Stream, PaymentStreamingError>(
            PaymentStreamingError::InvalidAmount,
        ) <==> amount <= 0 && amount <= available(stream, elapsed),
{
}

/// A stream that is not active pays nothing, whatever is asked for and
/// whenever.
pub proof fn lemma_inactive_pays_nothing(stream: Stream, elapsed: u64, amount: i128)
    requires
        !stream.is_active,
    ensures
        settled(stream, elapsed, amount) == Err::<Stream, PaymentStreamingError>(
            PaymentStreamingError::StreamNotActive,
        ),
{
}

/// At time zero of a stream that takes time to vest and from which nothing
/// negative was withdrawn, no amount can be withdrawn.
pub proof fn lemma_nothing_at_start(stream: Stream, amount: i128)
    requires
        stream.duration > 0,
        stream.withdrawn >= 0,
    ensures
        settled(stream, 0, amount) is Err,
{
    lemma_available_at_start(stream);
}

/// A withdrawal's request as the host sees it answered: whether the caller
/// was authorized, the time, and the amount asked for.
pub struct Request {
    pub authorized: bool,
    pub now: u64,
    pub amount: i128,
}

/// The stream after `requests` were made of it one after the other: each
/// that succeeds replaces the stream by its result, each that is refused
/// leaves it as it was.
pub open spec fn after_requests(stream: Stream, requests: Seq<Request>) -> Stream
    decreases requests.len(),
{
    if requests.len() == 0 {
        stream
    } else {
        let before = after_requests(stream, requests.drop_last());
        let request = requests.last();
        match withdrawal_outcome(Some(before), request.authorized, request.now, request.amount) {
            Ok(paid) => paid,
            Err(_) => before,
        }
    }
}

/// Over any sequence of withdrawals from one stream, what is withdrawn never
/// goes down and nothing else in the stream changes; a valid stream stays
/// valid, and a stream that is not active stays as it is.
pub proof fn lemma_withdrawn_never_decreases(stream: Stream, requests: Seq<Request>)
    requires
        forall|i: int| 0 <= i < requests.len() ==> (#[trigger] requests[i]).now >= stream.start_time,
    ensures
        after_requests(stream, requests).withdrawn >= stream.withdrawn,
        after_requests(stream, requests) == stream.with_withdrawn(
            after_requests(stream, requests).withdrawn,
        ),
        stream.is_valid() ==> after_requests(stream, requests).is_valid(),
        !stream.is_active ==> after_requests(stream, requests) == stream,
    decreases requests.len(),
{
    if requests.len() > 0 {
        let earlier = requests.drop_last();
        assert forall|i: int| 0 <= i < earlier.len() implies (#[trigger] earlier[i]).now
            >= stream.start_time by {
            assert(earlier[i] == requests[i]);
        }
        lemma_withdrawn_never_decreases(stream, earlier);
        let before = after_requests(stream, earlier);
        let request = requests.last();
        assert(request == requests[requests.len() - 1]);
        if withdrawal_outcome(Some(before), request.authorized, request.now, request.amount) is Ok {
            lemma_settled_total(before, elapsed_at(before, request.now), request.amount);
        }
    }
}

/// Driving a withdrawal with the host's three answers in their order ends
/// where the whole withdrawal is said to end: with the stream to store under
/// the identifier that was asked for, or aborted with the error.
pub proof fn lemma_advance_reaches_outcome(
    stream_id: [u8; 32],
    amount: i128,
    found: Option<Stream>,
    authorized: bool,
    now: u64,
)
    ensures
        ({
            let begun = Withdrawal::LoadStream { stream_id, amount };
            let ended = begun.next(HostReply::Loaded(found)).next(
                HostReply::Authorized(authorized),
            ).next(HostReply::Clock(now));
            ended == match withdrawal_outcome(found, authorized, now, amount) {
                Ok(stream) => Withdrawal::StoreStream { stream_id, stream },
                Err(error) => Withdrawal::Abort { error },
            }
        }),
{
}

} // verus!
