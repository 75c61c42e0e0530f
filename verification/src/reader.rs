//! The subscription lifecycle: start-flag selection, the step-by-step
//! acquisition of the three native resources (wait signal, subscription
//! handle, bookmark handle), benign-versus-fatal classification of poll
//! outcomes, the probe-then-fill buffer protocol shared by the two render
//! calls, the advance-bookmark-before-delivery ordering, and ordered,
//! idempotent teardown.
//!
//! The native calls themselves (subscribe, poll, render, close) are made
//! by the embedding program; every decision between two calls — which flag
//! to pass, whether an outcome is fatal, what to release on which exit
//! path — is made here, with a contract.

use vstd::prelude::*;

use crate::error::{spec_error_message, Error, ErrorKind, Result};
use crate::text::{spec_trim_nulls, trim_nulls};

verus! {

/// Start delivering events recorded after subscription.
pub const EVT_SUBSCRIBE_TO_FUTURE_EVENTS: u32 = 1;

/// Start delivering from the oldest retained record.
pub const EVT_SUBSCRIBE_START_AT_OLDEST_RECORD: u32 = 2;

/// Start delivering strictly after the bookmarked position.
pub const EVT_SUBSCRIBE_START_AFTER_BOOKMARK: u32 = 3;

/// Render an event (or the message-formatting call) as XML text.
pub const EVT_FORMAT_MESSAGE_XML: u32 = 9;

/// Render flag: the event itself as XML.
pub const EVT_RENDER_FLAG_EVENT_XML: u32 = 1;

/// Render flag: a bookmark as XML.
pub const EVT_RENDER_FLAG_BOOKMARK: u32 = 2;

/// The OS code the probe call of the two-call buffer protocol must report.
pub const ERROR_INSUFFICIENT_BUFFER: i32 = 122;

/// Benign poll code: the subscription has no further item right now.
pub const ERROR_NO_MORE_ITEMS: i32 = 259;

/// Benign poll code: the bounded wait elapsed without an event.
pub const ERROR_TIMEOUT: i32 = 1460;

/// Benign poll code: the operation is invalid in the current state.
pub const ERROR_INVALID_OPERATION: i32 = 4317;

/// The bounded wait of one poll, in milliseconds.
pub const POLL_TIMEOUT_MS: u32 = 500;

/// The output representation a reader delivers, fixed for its lifetime.
#[derive(Clone, Copy, Debug, Eq, PartialEq, Structural)]
pub enum Output {
    Xml,
    Raw,
    Parsed,
    Json,
}

/// How a reader is to be constructed: where to start, which query to
/// subscribe with, an optional previously exported bookmark, and the
/// output representation.
#[derive(Debug)]
pub struct Config {
    pub read_oldest: bool,
    pub query: String,
    pub bookmark: Option<String>,
    pub output: Output,
}

/// The query a reader subscribes with when none is supplied: everything
/// on the application, security and system channels.
pub open spec fn spec_default_query() -> Seq<char> {
    "\n<QueryList>\n    <Query Id='0'>\n        <Select Path='Application'>*</Select>\n        <Select Path='Security'>*</Select>\n        <Select Path='System'>*</Select>\n    </Query>\n</QueryList>\n"@
}

/// The default query text.
pub fn default_query() -> (q: String)
    ensures
        q@ == spec_default_query(),
{
    String::from_str(
        "\n<QueryList>\n    <Query Id='0'>\n        <Select Path='Application'>*</Select>\n        <Select Path='Security'>*</Select>\n        <Select Path='System'>*</Select>\n    </Query>\n</QueryList>\n",
    )
}

impl Default for Config {
    /// Tail new events on the three standard channels, delivered parsed.
    fn default() -> (c: Config)
        ensures
            c.read_oldest == false,
            c.query@ == spec_default_query(),
            c.bookmark is None,
            c.output == Output::Parsed,
    {
        Config { read_oldest: false, query: default_query(), bookmark: None, output: Output::Parsed }
    }
}

/// The handles still to be released, in the fixed release order: wait
/// signal, subscription handle, bookmark handle; zero stands for a
/// resource that does not exist.
pub open spec fn spec_release_plan(signal: i64, subscription: i64, bookmark: i64) -> Seq<i64> {
    (if signal != 0 {
        seq![signal]
    } else {
        Seq::<i64>::empty()
    }) + (if subscription != 0 {
        seq![subscription]
    } else {
        Seq::<i64>::empty()
    }) + (if bookmark != 0 {
        seq![bookmark]
    } else {
        Seq::<i64>::empty()
    })
}

/// The start flag of the subscribe call: start-after-bookmark as soon as a
/// bookmark handle was materialized, overriding the requested mode; else
/// oldest-record or future-events as requested.
pub open spec fn spec_start_flag(read_oldest: bool, bookmark: i64) -> u32 {
    if bookmark != 0 {
        EVT_SUBSCRIBE_START_AFTER_BOOKMARK
    } else if read_oldest {
        EVT_SUBSCRIBE_START_AT_OLDEST_RECORD
    } else {
        EVT_SUBSCRIBE_TO_FUTURE_EVENTS
    }
}

/// A subscription under construction: the handles acquired so far, kept
/// together so that every exit path — fatal or not — can release exactly
/// what exists, in the fixed order.
pub struct InitFlow {
    pub read_oldest: bool,
    pub bookmark: i64,
    pub signal: i64,
    pub subscription: i64,
}

impl InitFlow {
    /// Starts constructing a subscription; nothing exists yet.
    pub fn begin(read_oldest: bool) -> (f: InitFlow)
        ensures
            f.read_oldest == read_oldest,
            f.bookmark == 0,
            f.signal == 0,
            f.subscription == 0,
    {
        InitFlow { read_oldest, bookmark: 0, signal: 0, subscription: 0 }
    }

    /// Step one: the result of materializing the caller's prior bookmark
    /// into a native handle, zero when none was supplied or the call
    /// failed. Failure is a non-fatal degradation: construction proceeds
    /// under the originally requested start mode.
    pub fn bookmark_materialized(&mut self, handle: i64)
        requires
            old(self).bookmark == 0,
            old(self).signal == 0,
            old(self).subscription == 0,
        ensures
            final(self).bookmark == handle,
            final(self).read_oldest == old(self).read_oldest,
            final(self).signal == 0,
            final(self).subscription == 0,
    {
        self.bookmark = handle;
    }

    /// The flag the subscribe call must be given in the current state.
    pub fn start_flag(&self) -> (f: u32)
        ensures
            f == spec_start_flag(self.read_oldest, self.bookmark),
    {
        if self.bookmark != 0 {
            EVT_SUBSCRIBE_START_AFTER_BOOKMARK
        } else if self.read_oldest {
            EVT_SUBSCRIBE_START_AT_OLDEST_RECORD
        } else {
            EVT_SUBSCRIBE_TO_FUTURE_EVENTS
        }
    }

    /// Step two: the result of creating the wait signal, zero on failure.
    /// Failure is fatal; the caller must still run `teardown`, which
    /// releases a bookmark handle materialized in step one.
    pub fn signal_created(&mut self, handle: i64, os_error: &str) -> (r: Result<()>)
        requires
            old(self).signal == 0,
            old(self).subscription == 0,
        ensures
            final(self).read_oldest == old(self).read_oldest,
            final(self).bookmark == old(self).bookmark,
            final(self).subscription == 0,
            handle != 0 ==> r is Ok && final(self).signal == handle,
            handle == 0 ==> final(self).signal == 0 && (r matches Err(e) && e.kind
                == ErrorKind::Subscription && e.message@ == spec_error_message(
                "unable to create signal"@,
                os_error@,
            )),
    {
        if handle == 0 {
            Err(Error::subscription("unable to create signal", os_error))
        } else {
            self.signal = handle;
            Ok(())
        }
    }

    /// Step three: the result of opening the subscription with the
    /// compiled query, the signal, the start flag and the bookmark handle
    /// (zero when none was materialized); zero on failure, which is fatal.
    /// The caller must run `teardown`, which releases the signal before
    /// anything else, so the signal does not leak past the error.
    pub fn subscription_opened(&mut self, handle: i64, os_error: &str) -> (r: Result<()>)
        requires
            old(self).subscription == 0,
        ensures
            final(self).read_oldest == old(self).read_oldest,
            final(self).bookmark == old(self).bookmark,
            final(self).signal == old(self).signal,
            handle != 0 ==> r is Ok && final(self).subscription == handle,
            handle == 0 ==> final(self).subscription == 0 && (r matches Err(e) && e.kind
                == ErrorKind::Subscription && e.message@ == spec_error_message(
                "unable to create events subscription"@,
                os_error@,
            )),
    {
        if handle == 0 {
            Err(Error::subscription("unable to create events subscription", os_error))
        } else {
            self.subscription = handle;
            Ok(())
        }
    }

    /// Whether step four is needed: no bookmark handle exists yet, so a
    /// fresh empty one must be created to track future progress.
    pub fn needs_fresh_bookmark(&self) -> (b: bool)
        ensures
            b == (self.bookmark == 0),
    {
        self.bookmark == 0
    }

    /// Step four: the result of creating the fresh empty bookmark, zero on
    /// failure, which is fatal; `teardown` then releases the signal and
    /// the subscription.
    pub fn fresh_bookmark_created(&mut self, handle: i64, os_error: &str) -> (r: Result<()>)
        requires
            old(self).bookmark == 0,
        ensures
            final(self).read_oldest == old(self).read_oldest,
            final(self).signal == old(self).signal,
            final(self).subscription == old(self).subscription,
            handle != 0 ==> r is Ok && final(self).bookmark == handle,
            handle == 0 ==> final(self).bookmark == 0 && (r matches Err(e) && e.kind
                == ErrorKind::Subscription && e.message@ == spec_error_message(
                "unable to create default bookmark handle"@,
                os_error@,
            )),
    {
        if handle == 0 {
            Err(Error::subscription("unable to create default bookmark handle", os_error))
        } else {
            self.bookmark = handle;
            Ok(())
        }
    }

    /// Completion: with all three resources held, the flow becomes the
    /// reader that owns them.
    pub fn into_reader(self, output: Output) -> (r: Reader)
        requires
            self.signal != 0,
            self.subscription != 0,
            self.bookmark != 0,
        ensures
            r.signal == self.signal,
            r.subscription == self.subscription,
            r.bookmark == self.bookmark,
            r.output == output,
    {
        Reader {
            signal: self.signal,
            subscription: self.subscription,
            bookmark: self.bookmark,
            output,
        }
    }

    /// Abandons the flow: the handles acquired so far, in release order —
    /// signal, subscription, bookmark — each listed only if it exists.
    /// Afterwards nothing is live, so running it again releases nothing.
    pub fn teardown(&mut self) -> (plan: Vec<i64>)
        ensures
            plan@ == spec_release_plan(
                old(self).signal,
                old(self).subscription,
                old(self).bookmark,
            ),
            final(self).signal == 0,
            final(self).subscription == 0,
            final(self).bookmark == 0,
            final(self).read_oldest == old(self).read_oldest,
    {
        let mut plan: Vec<i64> = Vec::new();
        if self.signal != 0 {
            plan.push(self.signal);
            self.signal = 0;
        }
        if self.subscription != 0 {
            plan.push(self.subscription);
            self.subscription = 0;
        }
        if self.bookmark != 0 {
            plan.push(self.bookmark);
            self.bookmark = 0;
        }
        proof {
            assert(plan@ =~= spec_release_plan(
                old(self).signal,
                old(self).subscription,
                old(self).bookmark,
            ));
        }
        plan
    }
}

/// An open subscription: exclusive owner of the wait signal, the
/// subscription handle and the bookmark handle, with the output
/// representation fixed at construction.
pub struct Reader {
    pub signal: i64,
    pub subscription: i64,
    pub bookmark: i64,
    pub output: Output,
}

impl Reader {
    /// Releases ownership of every live resource, in the fixed order:
    /// wait signal, subscription handle, bookmark handle. Resources that
    /// were never created, or were already released, are skipped, so the
    /// operation is idempotent and safe on partially constructed state.
    pub fn teardown(&mut self) -> (plan: Vec<i64>)
        ensures
            plan@ == spec_release_plan(
                old(self).signal,
                old(self).subscription,
                old(self).bookmark,
            ),
            final(self).signal == 0,
            final(self).subscription == 0,
            final(self).bookmark == 0,
            final(self).output == old(self).output,
    {
        let mut plan: Vec<i64> = Vec::new();
        if self.signal != 0 {
            plan.push(self.signal);
            self.signal = 0;
        }
        if self.subscription != 0 {
            plan.push(self.subscription);
            self.subscription = 0;
        }
        if self.bookmark != 0 {
            plan.push(self.bookmark);
            self.bookmark = 0;
        }
        proof {
            assert(plan@ =~= spec_release_plan(
                old(self).signal,
                old(self).subscription,
                old(self).bookmark,
            ));
        }
        plan
    }
}

/// LAW: teardown is idempotent and safe on partially created state. On a
/// torn-down owner every handle is zero, so the release plan is empty —
/// a second teardown releases nothing and cannot double-free; and whatever
/// subset of resources exists, each live handle appears in the plan
/// exactly once, in the fixed order signal, subscription, bookmark.
pub proof fn lemma_teardown_idempotent(signal: i64, subscription: i64, bookmark: i64)
    ensures
        spec_release_plan(0, 0, 0) == Seq::<i64>::empty(),
        signal != 0 && subscription != 0 && bookmark != 0 ==> spec_release_plan(
            signal,
            subscription,
            bookmark,
        ) == seq![signal, subscription, bookmark],
{
    assert(spec_release_plan(0, 0, 0) =~= Seq::<i64>::empty());
    if signal != 0 && subscription != 0 && bookmark != 0 {
        assert(spec_release_plan(signal, subscription, bookmark) =~= seq![
            signal,
            subscription,
            bookmark,
        ]);
    }
}

/// LAW: a previously exported bookmark, once materialized, always wins
/// over the requested start mode — the subscription then starts strictly
/// after the bookmarked position, which is what makes an exported bookmark
/// resume a later subscription after the last consumed event rather than
/// re-delivering it.
pub proof fn lemma_bookmark_overrides_start_mode(read_oldest: bool, bookmark: i64)
    ensures
        (spec_start_flag(read_oldest, bookmark) == EVT_SUBSCRIBE_START_AFTER_BOOKMARK) <==> (
        bookmark != 0),
{
}

/// Whether a failed poll's OS code is benign: an absent code, the bounded
/// wait elapsing, no further items, or an invalid-operation report all
/// mean "no event right now" and are retried by the caller; anything else
/// is fatal.
pub open spec fn benign_poll_code(code: Option<i32>) -> bool {
    code is None || code == Some(ERROR_TIMEOUT) || code == Some(ERROR_NO_MORE_ITEMS) || code
        == Some(ERROR_INVALID_OPERATION)
}

/// Resolves one poll of the subscription. When the poll succeeded, the
/// retrieved event handle is returned. When it failed with a benign code
/// the result is `NoMoreLogs` — not a fatal error; the caller retries
/// after a backoff. Any other code is a fatal subscription error wrapping
/// the OS error text.
pub fn resolve_poll(succeeded: bool, event_handle: i64, os_code: Option<i32>, os_error: &str) -> (r:
    Result<i64>)
    ensures
        succeeded ==> (r matches Ok(h) && h == event_handle),
        !succeeded && benign_poll_code(os_code) ==> (r matches Err(e) && e.kind
            == ErrorKind::NoMoreLogs && e.message@ == Seq::<char>::empty()),
        !succeeded && !benign_poll_code(os_code) ==> (r matches Err(e) && e.kind
            == ErrorKind::Subscription && e.message@ == spec_error_message(
            "error getting next windows logs event"@,
            os_error@,
        )),
{
    if succeeded {
        Ok(event_handle)
    } else {
        match os_code {
            None => Err(Error::no_more_logs()),
            Some(c) => {
                if c == ERROR_TIMEOUT || c == ERROR_NO_MORE_ITEMS || c == ERROR_INVALID_OPERATION {
                    Err(Error::no_more_logs())
                } else {
                    Err(Error::subscription("error getting next windows logs event", os_error))
                }
            },
        }
    }
}

/// One retrieved event moving through the delivery protocol. The bookmark
/// must be advanced to the event's position before its content is
/// rendered or delivered, so that the persisted position never points
/// past an event the caller has not received; `bookmark_advanced` is the
/// only way to mark the ticket deliverable.
pub struct EventTicket {
    pub handle: i64,
    pub advanced: bool,
}

impl EventTicket {
    /// Wraps an event handle fresh from a successful poll; its bookmark
    /// advance is still outstanding.
    pub fn from_poll(handle: i64) -> (t: EventTicket)
        ensures
            t.handle == handle,
            !t.advanced,
    {
        EventTicket { handle, advanced: false }
    }

    /// Records the result of advancing the bookmark to this event. On
    /// failure the whole operation fails as an event-local error and the
    /// event must not be delivered — though its handle must still be
    /// closed by the caller.
    pub fn bookmark_advanced(&mut self, updated: bool, os_error: &str) -> (r: Result<()>)
        requires
            !old(self).advanced,
        ensures
            final(self).handle == old(self).handle,
            updated ==> r is Ok && final(self).advanced,
            !updated ==> !final(self).advanced && (r matches Err(e) && e.kind == ErrorKind::Event
                && e.message@ == spec_error_message("unable to update bookmark"@, os_error@)),
    {
        if updated {
            self.advanced = true;
            Ok(())
        } else {
            Err(Error::event("unable to update bookmark", os_error))
        }
    }

    /// Whether the event may be rendered and delivered: exactly when its
    /// bookmark advance has been recorded.
    pub fn deliverable(&self) -> (b: bool)
        ensures
            b == self.advanced,
    {
        self.advanced
    }
}

/// What `String::from_utf16_lossy` returns for a buffer of UTF-16 units:
/// a function of the units alone.
pub uninterp spec fn utf16_lossy_of(units: Seq<u16>) -> Seq<char>;

/// Relies on `String::from_utf16_lossy`: decodes UTF-16, replacing
/// invalid sequences with the replacement character. The result depends
/// on the buffer contents alone, and an empty buffer decodes to the
/// empty string.
#[verifier::external_body]
fn decode_utf16_lossy(units: &Vec<u16>) -> (r: String)
    ensures
        r@ == utf16_lossy_of(units@),
        units@.len() == 0 ==> r@.len() == 0,
{
    String::from_utf16_lossy(units)
}

/// Decides the probe phase of the two-call buffer protocol: the probe is
/// made with a zero-size buffer only to learn the required size, so the
/// expected outcome is the insufficient-buffer code (or no code), and the
/// reported used size is adopted for the fill call; any other code is a
/// fatal event-local error.
pub fn probe_size(os_code: Option<i32>, buffer_used: u32, os_error: &str) -> (r: Result<u32>)
    ensures
        (os_code matches Some(c) && c != ERROR_INSUFFICIENT_BUFFER) ==> (r matches Err(e) && e.kind
            == ErrorKind::Event && e.message@ == spec_error_message(
            "unable to render event"@,
            os_error@,
        )),
        (os_code is None || os_code == Some(ERROR_INSUFFICIENT_BUFFER)) ==> r == Ok::<u32, Error>(
            buffer_used,
        ),
{
    match os_code {
        Some(c) => {
            if c != ERROR_INSUFFICIENT_BUFFER {
                Err(Error::event("unable to render event", os_error))
            } else {
                Ok(buffer_used)
            }
        },
        None => Ok(buffer_used),
    }
}

/// Finishes the fill phase of the two-call buffer protocol: on success
/// the UTF-16 buffer is decoded lossily and null padding trimmed from
/// both ends; failure is a fatal event-local error.
pub fn fill_result(succeeded: bool, buf: &Vec<u16>, os_error: &str) -> (r: Result<String>)
    ensures
        succeeded ==> (r matches Ok(s) && s@ == spec_trim_nulls(utf16_lossy_of(buf@))),
        !succeeded ==> (r matches Err(e) && e.kind == ErrorKind::Event && e.message@
            == spec_error_message("unable to render event"@, os_error@)),
{
    if succeeded {
        let s = decode_utf16_lossy(buf);
        Ok(trim_nulls(s.as_str()))
    } else {
        Err(Error::event("unable to render event", os_error))
    }
}

} // verus!
