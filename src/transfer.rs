use vstd::prelude::*;

verus! {

/// How the transport treats redirects.
#[derive(Clone, Copy, Debug, PartialEq, Eq)]
pub enum RedirectPolicy {
    /// Report a redirect response as it is.
    NoFollow,
    /// Follow at most this many hops.
    Limited(usize),
}

/// Configuration of one invocation, fixed once it is built.
#[derive(Clone, Debug)]
pub struct FetchConfig {
    pub url: String,
    pub output: Option<String>,
    pub verbose: bool,
    pub redirects: RedirectPolicy,
    pub resume: bool,
    pub force: bool,
    pub recursive: bool,
    pub max_depth: usize,
    pub max_concurrent: usize,
    pub same_domain: bool,
}

/// Why a fetch of one resource failed.
#[derive(Clone, Debug, PartialEq, Eq)]
pub enum FetchError {
    /// The input URL could not be parsed.
    InvalidUrl(String),
    /// A directory or file operation failed: the path and the cause.
    Io(String, String),
    /// The connection or the transfer failed.
    Network(String),
    /// The server answered with a status that is not a success: the status and the URL.
    ServerError(u16, String),
    /// The transport gave up after too many redirects.
    RedirectLimitExceeded(String),
}

/// Why a fetch did not take place.
#[derive(Clone, Copy, Debug, PartialEq, Eq)]
pub enum SkipReason {
    AlreadyExists,
}

/// Result of one fetch.
#[derive(Clone, Debug, PartialEq, Eq)]
pub enum FetchOutcome {
    /// The body was streamed to the destination; the number of bytes written.
    Completed(u64),
    Skipped(SkipReason),
    Failed(FetchError),
}

/// What to do before contacting the network.
#[derive(Clone, Copy, Debug, PartialEq, Eq, Structural)]
pub enum Start {
    /// Leave the destination alone.
    Skip,
    /// Send a request; a non-zero offset asks for the bytes from there on.
    Request { resume_offset: u64 },
}

/// How the destination is opened for writing.
#[derive(Clone, Copy, Debug, PartialEq, Eq, Structural)]
pub enum SinkMode {
    /// Keep the bytes present and write after them.
    Append,
    /// Create the file, or empty it, and write from byte 0.
    Truncate,
}

/// How an accepted response is written.
#[derive(Clone, Copy, Debug, PartialEq, Eq, Structural)]
pub struct WritePlan {
    pub sink: SinkMode,
    /// Bytes already in place before the first streamed byte.
    pub start: u64,
    /// Expected size of the complete resource; 0 when unknown.
    pub total: u64,
}

/// Bytes received in one chunk, and the expected total (0 when unknown).
#[derive(Clone, Copy, Debug, PartialEq, Eq, Structural)]
pub struct ProgressEvent {
    pub delta: u64,
    pub total: u64,
}

pub open spec fn start_spec(present: bool, existing_len: u64, force: bool, resume: bool) -> Start {
    if !present || force {
        Start::Request { resume_offset: 0 }
    } else if resume {
        Start::Request { resume_offset: existing_len }
    } else {
        Start::Skip
    }
}

/// Decides, from whether the destination exists and its size, whether to
/// skip it, fetch it from scratch or resume it. `force` wins over `resume`.
pub fn start_decision(config: &FetchConfig, present: bool, existing_len: u64) -> (r: Start)
    ensures
        r == start_spec(present, existing_len, config.force, config.resume),
{
    if !present || config.force {
        Start::Request { resume_offset: 0 }
    } else if config.resume {
        Start::Request { resume_offset: existing_len }
    } else {
        Start::Skip
    }
}

/// Decimal digits of `n` in ASCII, most significant first.
pub open spec fn decimal(n: nat) -> Seq<u8>
    decreases n,
{
    if n < 10 {
        seq![(48 + n) as u8]
    } else {
        decimal(n / 10).push((48 + n % 10) as u8)
    }
}

/// `bytes=` in ASCII.
pub open spec fn range_prefix() -> Seq<u8> {
    seq![98u8, 121u8, 116u8, 101u8, 115u8, 61u8]
}

/// The value of the range header for a resume offset: none for offset 0,
/// else `bytes=<offset>-`, asking for everything from the offset on.
pub open spec fn range_header_spec(offset: u64) -> Option<Seq<u8>> {
    if offset == 0 {
        None
    } else {
        Some(range_prefix() + decimal(offset as nat) + seq![45u8])
    }
}

fn push_decimal(n: u64, out: &mut Vec<u8>)
    ensures
        final(out)@ == old(out)@ + decimal(n as nat),
    decreases n,
{
    if n >= 10 {
        push_decimal(n / 10, out);
    }
    out.push((48 + n % 10) as u8);
    assert(final(out)@ =~= old(out)@ + decimal(n as nat));
}

/// Value of the range header to send for a resume offset, if any.
pub fn range_header(offset: u64) -> (r: Option<Vec<u8>>)
    ensures
        match range_header_spec(offset) {
            Some(v) => r is Some && r->Some_0@ == v,
            None => r is None,
        },
{
    if offset == 0 {
        return None;
    }
    let mut v: Vec<u8> = vec![98u8, 121u8, 116u8, 101u8, 115u8, 61u8];
    assert(v@ =~= range_prefix());
    push_decimal(offset, &mut v);
    v.push(45u8);
    Some(v)
}

pub open spec fn is_success_spec(status: u16) -> bool {
    200 <= status <= 299
}

/// Whether an HTTP status is a success (2xx).
pub fn is_success(status: u16) -> (r: bool)
    ensures
        r == is_success_spec(status),
{
    200 <= status && status <= 299
}

/// `a + b`, or `u64::MAX` where the sum does not fit.
pub open spec fn saturating_sum(a: u64, b: u64) -> u64 {
    if a + b > u64::MAX {
        u64::MAX
    } else {
        (a + b) as u64
    }
}

/// The classification of a response to a request sent with `offset`:
/// a non-success status is refused with that status; a 206 keeps the offset;
/// any other success starts over from byte 0.
pub open spec fn classify_spec(offset: u64, status: u16, content_length: Option<u64>) -> Result<WritePlan, u16> {
    let declared: u64 = match content_length {
        Some(n) => n,
        None => 0,
    };
    if !is_success_spec(status) {
        Err(status)
    } else if status == 206 {
        Ok(WritePlan {
            sink: if offset > 0 { SinkMode::Append } else { SinkMode::Truncate },
            start: offset,
            total: saturating_sum(offset, declared),
        })
    } else {
        Ok(WritePlan { sink: SinkMode::Truncate, start: 0, total: declared })
    }
}

/// Classifies the response to a request for `url` sent with `offset`,
/// giving how to write its body or the server error to report.
pub fn classify_response(offset: u64, status: u16, content_length: Option<u64>, url: &str) -> (r: Result<WritePlan, FetchError>)
    ensures
        match classify_spec(offset, status, content_length) {
            Ok(p) => r == Ok::<WritePlan, FetchError>(p),
            Err(s) => r is Err && r->Err_0 is ServerError && r->Err_0->ServerError_0 == s
                && r->Err_0->ServerError_1@ == url@,
        },
{
    let declared: u64 = match content_length {
        Some(n) => n,
        None => 0,
    };
    if !is_success(status) {
        return Err(FetchError::ServerError(status, String::from_str(url)));
    }
    if status == 206 {
        let total = if declared > u64::MAX - offset {
            u64::MAX
        } else {
            offset + declared
        };
        let sink = if offset > 0 {
            SinkMode::Append
        } else {
            SinkMode::Truncate
        };
        Ok(WritePlan { sink, start: offset, total })
    } else {
        Ok(WritePlan { sink: SinkMode::Truncate, start: 0, total: declared })
    }
}

/// A byte that a header value may hold and still read as text.
pub open spec fn visible_ascii(b: u8) -> bool {
    (32 <= b && b < 127) || b == 9
}

/// `text/html` in ASCII.
pub open spec fn html_marker() -> Seq<u8> {
    seq![116u8, 101u8, 120u8, 116u8, 47u8, 104u8, 116u8, 109u8, 108u8]
}

pub open spec fn occurs_at(hay: Seq<u8>, needle: Seq<u8>, i: int) -> bool {
    0 <= i && i + needle.len() <= hay.len() && hay.subrange(i, i + needle.len()) == needle
}

/// A content type names HTML when it reads as text and contains `text/html`.
pub open spec fn html_value_spec(v: Seq<u8>) -> bool {
    &&& forall|i: int| 0 <= i < v.len() ==> visible_ascii(#[trigger] v[i])
    &&& exists|i: int| occurs_at(v, html_marker(), i)
}

pub open spec fn is_html_spec(content_type: Option<Seq<u8>>) -> bool {
    match content_type {
        Some(v) => html_value_spec(v),
        None => false,
    }
}

fn occurs_here(hay: &[u8], needle: &Vec<u8>, i: usize) -> (r: bool)
    requires
        i + needle@.len() <= hay@.len(),
    ensures
        r == occurs_at(hay@, needle@, i as int),
{
    let n = hay.len();
    let mut k: usize = 0;
    while k < needle.len()
        invariant
            n == hay@.len(),
            k <= needle@.len(),
            i + needle@.len() <= hay@.len(),
            forall|j: int| 0 <= j < k ==> hay@[i + j] == needle@[j],
        decreases needle@.len() - k,
    {
        if hay[i + k] != needle[k] {
            assert(hay@.subrange(i as int, i + needle@.len())[k as int] != needle@[k as int]);
            return false;
        }
        k = k + 1;
    }
    assert(hay@.subrange(i as int, i + needle@.len()) =~= needle@);
    true
}

/// Whether a content-type header value names HTML.
pub fn is_html(content_type: Option<&[u8]>) -> (r: bool)
    ensures
        r == is_html_spec(match content_type {
            Some(v) => Some(v@),
            None => None,
        }),
{
    match content_type {
        Some(v) => is_html_value(v),
        None => false,
    }
}

fn is_html_value(v: &[u8]) -> (r: bool)
    ensures
        r == html_value_spec(v@),
{
    let mut i: usize = 0;
    while i < v.len()
        invariant
            i <= v@.len(),
            forall|j: int| 0 <= j < i ==> visible_ascii(#[trigger] v@[j]),
        decreases v@.len() - i,
    {
        let b = v[i];
        if !((32 <= b && b < 127) || b == 9) {
            assert(!visible_ascii(v@[i as int]));
            return false;
        }
        i = i + 1;
    }
    let marker: Vec<u8> = vec![116u8, 101u8, 120u8, 116u8, 47u8, 104u8, 116u8, 109u8, 108u8];
    assert(marker@ =~= html_marker());
    if v.len() < marker.len() {
        return false;
    }
    let n = v.len();
    let last = n - marker.len();
    let mut p: usize = 0;
    while p <= last
        invariant
            n == v@.len(),
            last + marker@.len() == n,
            forall|j: int| 0 <= j < v@.len() ==> visible_ascii(#[trigger] v@[j]),
            marker@ == html_marker(),
            forall|j: int| 0 <= j < p ==> !occurs_at(v@, html_marker(), j),
        decreases last + 1 - p,
    {
        if occurs_here(v, &marker, p) {
            assert(occurs_at(v@, html_marker(), p as int));
            return true;
        }
        p = p + 1;
    }
    proof {
        true_if_none_found(v@, p as int);
    }
    false
}

proof fn true_if_none_found(v: Seq<u8>, p: int)
    requires
        p + html_marker().len() > v.len(),
        forall|j: int| 0 <= j < p ==> !occurs_at(v, html_marker(), j),
    ensures
        !exists|i: int| occurs_at(v, html_marker(), i),
{
}

/// The destination after the streamed bytes are written with the given sink
/// over a file that held `before`.
pub open spec fn file_after(before: Seq<u8>, sink: SinkMode, streamed: Seq<u8>) -> Seq<u8> {
    match sink {
        SinkMode::Append => before + streamed,
        SinkMode::Truncate => streamed,
    }
}

/// One transfer in progress: the plan it follows, the bytes streamed so far
/// and, where the body is HTML in crawl mode, a copy of them.
pub struct Transfer {
    plan: WritePlan,
    capture: bool,
    received: u64,
    content: Vec<u8>,
    streamed: Ghost<Seq<u8>>,
}

impl Transfer {
    pub closed spec fn plan_spec(&self) -> WritePlan {
        self.plan
    }

    pub closed spec fn capture_spec(&self) -> bool {
        self.capture
    }

    /// Every byte streamed so far, in order.
    pub closed spec fn streamed(&self) -> Seq<u8> {
        self.streamed@
    }

    /// What has been kept in memory: the streamed bytes when capturing, else nothing.
    pub closed spec fn content_spec(&self) -> Seq<u8> {
        self.content@
    }

    pub closed spec fn wf(&self) -> bool {
        &&& self.received as int == self.streamed@.len()
        &&& self.content@ == if self.capture {
            self.streamed@
        } else {
            Seq::<u8>::empty()
        }
    }

    /// The destination once the streamed bytes are written over `before`.
    pub open spec fn destination(&self, before: Seq<u8>) -> Seq<u8> {
        file_after(before, self.plan_spec().sink, self.streamed())
    }

    /// Starts a transfer that follows `plan`; `capture` keeps a copy of the body.
    pub fn new(plan: WritePlan, capture: bool) -> (t: Transfer)
        ensures
            t.wf(),
            t.plan_spec() == plan,
            t.capture_spec() == capture,
            t.streamed() == Seq::<u8>::empty(),
    {
        Transfer { plan, capture, received: 0, content: Vec::new(), streamed: Ghost(Seq::empty()) }
    }

    /// Accounts for one chunk of the body, which the caller writes to the
    /// sink; returns the progress event to emit.
    pub fn on_chunk(&mut self, chunk: &[u8]) -> (ev: ProgressEvent)
        requires
            old(self).wf(),
            old(self).streamed().len() + chunk@.len() <= u64::MAX,
        ensures
            final(self).wf(),
            final(self).plan_spec() == old(self).plan_spec(),
            final(self).capture_spec() == old(self).capture_spec(),
            final(self).streamed() == old(self).streamed() + chunk@,
            ev == (ProgressEvent { delta: chunk@.len() as u64, total: old(self).plan_spec().total }),
    {
        let n = chunk.len();
        if self.capture {
            let mut i: usize = 0;
            while i < n
                invariant
                    n == chunk@.len(),
                    i <= n,
                    self.capture,
                    self.received == old(self).received,
                    self.streamed@ == old(self).streamed@,
                    self.plan == old(self).plan,
                    self.content@ == old(self).content@ + chunk@.subrange(0, i as int),
                decreases n - i,
            {
                self.content.push(chunk[i]);
                assert(self.content@ =~= old(self).content@ + chunk@.subrange(0, i + 1));
                i = i + 1;
            }
            assert(chunk@.subrange(0, n as int) =~= chunk@);
        }
        self.received = self.received + n as u64;
        self.streamed = Ghost(self.streamed@ + chunk@);
        ProgressEvent { delta: n as u64, total: self.plan.total }
    }

    /// The plan this transfer follows.
    pub fn plan(&self) -> (p: WritePlan)
        ensures
            p == self.plan_spec(),
    {
        self.plan
    }

    /// Number of bytes streamed so far.
    pub fn received(&self) -> (n: u64)
        requires
            self.wf(),
        ensures
            n == self.streamed().len(),
    {
        self.received
    }

    /// The body kept in memory: all of it when capturing, else nothing.
    pub fn content(&self) -> (c: &Vec<u8>)
        requires
            self.wf(),
        ensures
            c@ == if self.capture_spec() {
                self.streamed()
            } else {
                Seq::<u8>::empty()
            },
    {
        &self.content
    }

    /// The outcome of a transfer whose body has ended: the bytes written.
    pub fn finish(&self) -> (r: FetchOutcome)
        requires
            self.wf(),
        ensures
            r == FetchOutcome::Completed(self.streamed().len() as u64),
    {
        FetchOutcome::Completed(self.received)
    }
}

/// The destination after one fetch: `before` is what it held (`None`: absent),
/// `status` and `content_length` describe the response and `streamed` is its
/// body. A skipped or refused fetch never opens the destination.
pub open spec fn destination_after(
    before: Option<Seq<u8>>,
    force: bool,
    resume: bool,
    status: u16,
    content_length: Option<u64>,
    streamed: Seq<u8>,
) -> Option<Seq<u8>> {
    let held = match before {
        Some(b) => b,
        None => Seq::<u8>::empty(),
    };
    match start_spec(before is Some, held.len() as u64, force, resume) {
        Start::Skip => before,
        Start::Request { resume_offset } => match classify_spec(resume_offset, status, content_length) {
            Err(_) => before,
            Ok(plan) => Some(file_after(held, plan.sink, streamed)),
        },
    }
}

/// What follows a response: a finished fetch, or the body to write.
#[derive(Clone, Debug, PartialEq, Eq)]
pub enum Next {
    Finish(FetchOutcome),
    Write { plan: WritePlan, capture: bool },
}

/// The destination as it was before a fetch, as `destination_after` reads it.
pub open spec fn held_before(present: bool, before: Seq<u8>) -> Option<Seq<u8>> {
    if present {
        Some(before)
    } else {
        None
    }
}

/// One fetch of `url` up to its body: from whether the destination is
/// present and its size, and the response's status, declared length and
/// content type, decides whether the fetch is skipped, fails with a server
/// error, or streams its body under a write plan, keeping a copy of HTML
/// bodies in crawl mode.
pub fn after_response(
    config: &FetchConfig,
    present: bool,
    existing_len: u64,
    status: u16,
    content_length: Option<u64>,
    content_type: Option<&[u8]>,
    url: &str,
) -> (r: Next)
    ensures
        match start_spec(present, existing_len, config.force, config.resume) {
            Start::Skip => r == Next::Finish(FetchOutcome::Skipped(SkipReason::AlreadyExists)),
            Start::Request { resume_offset } => match classify_spec(resume_offset, status, content_length) {
                Err(code) => r is Finish && r->Finish_0 is Failed && r->Finish_0->Failed_0 is ServerError
                    && r->Finish_0->Failed_0->ServerError_0 == code
                    && r->Finish_0->Failed_0->ServerError_1@ == url@,
                Ok(plan) => r == (Next::Write {
                    plan,
                    capture: config.recursive && is_html_spec(match content_type {
                        Some(v) => Some(v@),
                        None => None,
                    }),
                }),
            },
        },
        forall|before: Seq<u8>, streamed: Seq<u8>|
            (present ==> before.len() == existing_len) && (!present ==> before.len() == 0) ==> {
                &&& r is Finish ==> #[trigger] destination_after(
                    held_before(present, before),
                    config.force,
                    config.resume,
                    status,
                    content_length,
                    streamed,
                ) == held_before(present, before)
                &&& r is Write ==> destination_after(
                    held_before(present, before),
                    config.force,
                    config.resume,
                    status,
                    content_length,
                    streamed,
                ) == Some(file_after(before, r->plan.sink, streamed))
            },
{
    let offset = match start_decision(config, present, existing_len) {
        Start::Skip => return Next::Finish(FetchOutcome::Skipped(SkipReason::AlreadyExists)),
        Start::Request { resume_offset } => resume_offset,
    };
    match classify_response(offset, status, content_length, url) {
        Ok(plan) => {
            let capture = config.recursive && is_html(content_type);
            Next::Write { plan, capture }
        },
        Err(e) => Next::Finish(FetchOutcome::Failed(e)),
    }
}

/// An existing destination is left exactly as it was when neither `force`
/// nor `resume` is set, whatever the server would have sent.
pub proof fn law_existing_is_skipped(before: Seq<u8>, status: u16, content_length: Option<u64>, streamed: Seq<u8>)
    requires
        before.len() <= u64::MAX,
    ensures
        start_spec(true, before.len() as u64, false, false) == Start::Skip,
        destination_after(Some(before), false, false, status, content_length, streamed) == Some(before),
{
}

/// Resuming an N-byte destination against a server that honours the range
/// (206): the request asks for the bytes from N on, and the destination ends
/// up holding its N bytes unchanged followed by exactly the streamed bytes.
pub proof fn law_resume_honoured(before: Seq<u8>, content_length: Option<u64>, streamed: Seq<u8>)
    requires
        before.len() <= u64::MAX,
    ensures
        start_spec(true, before.len() as u64, false, true) == (Start::Request { resume_offset: before.len() as u64 }),
        range_header_spec(before.len() as u64) is Some <==> before.len() > 0,
        destination_after(Some(before), false, true, 206, content_length, streamed) == Some(before + streamed),
{
    if before.len() == 0 {
        assert(before + streamed =~= streamed);
    }
}

/// Resuming an N-byte destination against a server that answers a success
/// other than 206: the destination is rewritten from byte 0 and ends up
/// holding exactly the streamed bytes, with no copy of the first N.
pub proof fn law_resume_ignored(before: Seq<u8>, status: u16, content_length: Option<u64>, streamed: Seq<u8>)
    requires
        before.len() <= u64::MAX,
        is_success_spec(status),
        status != 206,
    ensures
        destination_after(Some(before), false, true, status, content_length, streamed) == Some(streamed),
{
}

/// A response whose status is not a success leaves the destination as it
/// was, absent or not, under every combination of flags.
pub proof fn law_refused_response_changes_nothing(
    before: Option<Seq<u8>>,
    force: bool,
    resume: bool,
    status: u16,
    content_length: Option<u64>,
    streamed: Seq<u8>,
)
    requires
        !is_success_spec(status),
    ensures
        destination_after(before, force, resume, status, content_length, streamed) == before,
{
}

} // verus!
