//! The requests that are sent to the gateway, and the poller that waits
//! for the outcome of a submitted batch.

use crate::error::{is_scheme_error, is_user_error, CliError};
use crate::messages::{batch_list_wire, batches_encodable, BatchList, BatchView};
use crate::wire::TOO_LARGE;
use vstd::prelude::*;
use vstd::string::*;

verus! {

/// The path under the gateway's base URL that accepts batch lists.
pub const BATCHES_PATH: &'static str = "/api/batches";

/// The path prefix under the gateway's base URL that status links hang from.
pub const API_PATH: &'static str = "/api";

/// The query suffix that asks the gateway to hold a status request until
/// the status changes.
pub const WAIT_SUFFIX: &'static str = "&wait=true";

/// The one transport scheme that the client speaks.
pub const SUPPORTED_SCHEME: &'static str = "http";

/// The media type of a submitted batch list.
pub const OCTET_STREAM: &'static str = "application/octet-stream";

/// The pause between two status requests, in milliseconds.
pub const POLL_INTERVAL_MILLIS: u64 = 3000;

/// The status of a batch whose transactions are all in a block.
pub const COMMITTED: &'static str = "COMMITTED";

/// The status of a batch that the ledger rejected.
pub const INVALID: &'static str = "INVALID";

/// What `hyper` makes of a URI: its scheme, if it has one, or the text of
/// the error when the URI cannot be parsed.
pub uninterp spec fn uri_scheme(uri: Seq<char>) -> Result<Option<Seq<char>>, Seq<char>>;

/// The mathematical content of a parsing result.
pub open spec fn parsed_view(parsed: Result<Option<String>, String>) -> Result<
    Option<Seq<char>>,
    Seq<char>,
> {
    match parsed {
        Ok(Some(scheme)) => Ok(Some(scheme@)),
        Ok(None) => Ok(None),
        Err(detail) => Err(detail@),
    }
}

/// Parses `uri` as a `hyper::Uri` (its `FromStr`) and reads `Uri::scheme`;
/// an error is given as its display text. Trusted: the result is a
/// function of the text of `uri` alone, named [`uri_scheme`].
#[verifier::external_body]
fn parse_uri_scheme(uri: &str) -> (parsed: Result<Option<String>, String>)
    ensures
        parsed_view(parsed) == uri_scheme(uri@),
{
    match uri.parse::<hyper::Uri>() {
        Ok(parsed) => Ok(parsed.scheme().map(String::from)),
        Err(error) => Err(error.to_string()),
    }
}

/// The text of the error for a URL that cannot be parsed.
pub open spec fn invalid_url_text(detail: Seq<char>) -> Seq<char> {
    "Invalid URL: "@ + detail
}

/// The text of the error for a URL without a scheme.
pub open spec fn no_scheme_text(url: Seq<char>) -> Seq<char> {
    "No scheme in URL: "@ + url
}

/// The text of the error for a URL with another scheme than the
/// supported one.
pub open spec fn unsupported_scheme_text(scheme: Seq<char>, url: Seq<char>) -> Seq<char> {
    "Unsupported scheme ("@ + scheme + ") in URL: "@ + url
}

/// What keeps a request from being sent to an address.
pub ghost enum UrlFault {
    /// The address cannot be parsed; the text is that of a user error.
    Invalid(Seq<char>),
    /// The address names no scheme, or another one than the supported
    /// one; the text is that of a scheme error.
    Scheme(Seq<char>),
}

/// What keeps a request from being sent to `url`, given what parsing made
/// of the address; `None` when the address is fit.
pub open spec fn url_fault(url: Seq<char>, parsed: Result<Option<Seq<char>>, Seq<char>>) -> Option<
    UrlFault,
> {
    match parsed {
        Err(detail) => Some(UrlFault::Invalid(invalid_url_text(detail))),
        Ok(None) => Some(UrlFault::Scheme(no_scheme_text(url))),
        Ok(Some(scheme)) => if scheme == SUPPORTED_SCHEME@ {
            None
        } else {
            Some(UrlFault::Scheme(unsupported_scheme_text(scheme, url)))
        },
    }
}

/// Whether `result` is the error that reports `fault`.
pub open spec fn reports<T>(result: Result<T, CliError>, fault: UrlFault) -> bool {
    match fault {
        UrlFault::Invalid(text) => is_user_error(result, text),
        UrlFault::Scheme(text) => is_scheme_error(result, text),
    }
}

/// Accepts the base URL `url` when parsing found the supported scheme in
/// its address, and says what is wrong with it otherwise: a scheme error
/// for a missing or another scheme, a user error for an address that
/// cannot be parsed.
pub fn check_scheme(url: &str, parsed: &Result<Option<String>, String>) -> (result: Result<
    (),
    CliError,
>)
    ensures
        match url_fault(url@, parsed_view(*parsed)) {
            None => result is Ok,
            Some(fault) => reports(result, fault),
        },
{
    match parsed {
        Err(detail) => Err(
            CliError::UserError(String::from_str("Invalid URL: ").concat(detail.as_str())),
        ),
        Ok(None) => Err(
            CliError::SchemeError(String::from_str("No scheme in URL: ").concat(url)),
        ),
        Ok(Some(scheme)) => {
            if *scheme == String::from_str(SUPPORTED_SCHEME) {
                Ok(())
            } else {
                let text = String::from_str("Unsupported scheme (").concat(scheme.as_str()).concat(
                    ") in URL: ",
                ).concat(url);
                Err(CliError::SchemeError(text))
            }
        },
    }
}

/// A request that hands a batch list to the gateway.
#[derive(Clone, Debug, PartialEq, Eq)]
pub struct SubmissionRequest {
    /// The address that the request is posted to.
    pub url: String,
    /// The media type of the body.
    pub content_type: String,
    /// The number of bytes in the body.
    pub content_length: u64,
    /// The wire form of the batch list.
    pub body: Vec<u8>,
}

/// Whether `result` is what preparing the submission of `batches` to the
/// gateway at `url` gives. A base URL that is not fit is refused before
/// anything else; then the batch list has to be short enough to write.
pub open spec fn prepares_submission(
    result: Result<SubmissionRequest, CliError>,
    url: Seq<char>,
    batches: Seq<BatchView>,
) -> bool {
    match url_fault(url, uri_scheme(url + BATCHES_PATH@)) {
        Some(fault) => reports(result, fault),
        None => match result {
            Ok(request) => {
                &&& batches_encodable(batches)
                &&& request.url@ == url + BATCHES_PATH@
                &&& request.content_type@ == OCTET_STREAM@
                &&& request.content_length == request.body@.len()
                &&& request.body@ == batch_list_wire(batches)
            },
            Err(CliError::ProtobufError(detail)) => !batches_encodable(batches) && detail@
                == TOO_LARGE@,
            Err(_) => false,
        },
    }
}

/// Prepares the request that submits `batch_list` to the gateway at the
/// base URL `url`. Nothing is sent.
pub fn submission_request(url: &str, batch_list: &BatchList) -> (result: Result<
    SubmissionRequest,
    CliError,
>)
    ensures
        prepares_submission(result, url@, batch_list@),
{
    let post_url = String::from_str(url).concat(BATCHES_PATH);
    let parsed = parse_uri_scheme(post_url.as_str());
    match check_scheme(url, &parsed) {
        Ok(()) => {},
        Err(e) => { return Err(e); },
    }
    let body = match batch_list.write_to_bytes() {
        Ok(bytes) => bytes,
        Err(e) => { return Err(e); },
    };
    Ok(
        SubmissionRequest {
            url: post_url,
            content_type: String::from_str(OCTET_STREAM),
            content_length: body.len() as u64,
            body: body,
        },
    )
}

/// The address that the status behind `link` is asked at, under the base
/// URL `base_url`.
pub open spec fn status_address(base_url: Seq<char>, link: Seq<char>) -> Seq<char> {
    base_url + API_PATH@ + link + WAIT_SUFFIX@
}

/// The address at which the gateway at `base_url` reports the status
/// behind `batch_status_link`, or the user error for an address that
/// cannot be parsed. Nothing is sent.
pub fn status_request_url(base_url: &str, batch_status_link: &str) -> (result: Result<
    String,
    CliError,
>)
    ensures
        match uri_scheme(status_address(base_url@, batch_status_link@)) {
            Ok(_) => result matches Ok(address) && address@ == status_address(
                base_url@,
                batch_status_link@,
            ),
            Err(detail) => is_user_error(result, invalid_url_text(detail)),
        },
{
    let address = String::from_str(base_url).concat(API_PATH).concat(batch_status_link).concat(
        WAIT_SUFFIX,
    );
    match parse_uri_scheme(address.as_str()) {
        Ok(_) => Ok(address),
        Err(detail) => Err(
            CliError::UserError(String::from_str("Invalid URL: ").concat(detail.as_str())),
        ),
    }
}

/// The gateway's answer to a status request.
#[derive(Clone, Debug, PartialEq, Eq)]
pub struct StatusData {
    /// One record for each batch that the request asked about.
    pub data: Vec<Status>,
    /// Where to ask again.
    pub link: String,
}

/// The status of one batch.
#[derive(Clone, Debug, PartialEq, Eq)]
pub struct Status {
    /// Batch id
    pub id: String,
    /// Why the batch was rejected; empty unless the status is `INVALID`.
    pub invalid_transactions: Vec<InvalidTransactions>,
    /// `COMMITTED`, `INVALID`, or a status that is not final.
    pub status: String,
}

/// Why the ledger rejected one transaction.
#[derive(Clone, Debug, PartialEq, Eq)]
pub struct InvalidTransactions {
    /// Transactions id
    pub id: String,
    /// The ledger's diagnostic.
    pub message: String,
}

/// Where a submitted batch stands.
#[derive(Clone, Copy, Debug, PartialEq, Eq, Structural)]
pub enum PollState {
    /// Not decided yet: any status but the two final ones.
    Pending,
    /// Final: the batch is in a block.
    Committed,
    /// Final: the ledger rejected the batch.
    Invalid,
}

/// The state that a status text stands for.
pub open spec fn state_of(status: Seq<char>) -> PollState {
    if status == COMMITTED@ {
        PollState::Committed
    } else if status == INVALID@ {
        PollState::Invalid
    } else {
        PollState::Pending
    }
}

/// The state that a status text stands for.
pub fn poll_state(status: &str) -> (state: PollState)
    ensures
        state == state_of(status@),
{
    let status = String::from_str(status);
    if status == String::from_str(COMMITTED) {
        PollState::Committed
    } else if status == String::from_str(INVALID) {
        PollState::Invalid
    } else {
        PollState::Pending
    }
}

/// What the poller does after one answer of the gateway.
#[derive(Clone, Debug, PartialEq, Eq)]
pub enum PollAction {
    /// The batch is committed: report success.
    Succeed,
    /// The batch was rejected: report the error, which carries the
    /// ledger's first diagnostic.
    Fail(CliError),
    /// The batch is pending: pause for `millis` milliseconds, then ask
    /// again at `link`, which is the handle that the submission returned.
    Wait { millis: u64, link: String },
}

impl StatusData {
    /// Whether the answer can be acted on: it holds a record, and when
    /// that record is `INVALID` it holds a diagnostic.
    pub open spec fn actionable(&self) -> bool {
        &&& self.data@.len() > 0
        &&& state_of(self.data@[0].status@) == PollState::Invalid
            ==> self.data@[0].invalid_transactions@.len() > 0
    }

    /// The state of the batch that the first record reports.
    pub open spec fn state(&self) -> PollState
        recommends
            self.data@.len() > 0,
    {
        state_of(self.data@[0].status@)
    }

    /// Whether `action` is what the poller does after this answer to a
    /// request at `handle`, the link that the submission returned. A batch
    /// that is pending is asked for again at the same handle, whatever
    /// link the answer carries.
    pub open spec fn decides(&self, action: PollAction, handle: Seq<char>) -> bool {
        match self.state() {
            PollState::Committed => action == PollAction::Succeed,
            PollState::Invalid => action matches PollAction::Fail(
                CliError::InvalidTransactionError(message),
            ) && message@ == self.data@[0].invalid_transactions@[0].message@,
            PollState::Pending => action matches PollAction::Wait { millis, link } && millis
                == POLL_INTERVAL_MILLIS && link@ == handle,
        }
    }

    /// Whether the answer can be acted on.
    pub fn is_actionable(&self) -> (actionable: bool)
        ensures
            actionable == self.actionable(),
    {
        if self.data.len() == 0 {
            false
        } else {
            match poll_state(self.data[0].status.as_str()) {
                PollState::Invalid => self.data[0].invalid_transactions.len() > 0,
                _ => true,
            }
        }
    }

    /// What the poller does after this answer to a request at `handle`:
    /// it looks at the first record alone.
    pub fn next_action(&self, handle: &str) -> (action: PollAction)
        requires
            self.actionable(),
        ensures
            self.decides(action, handle@),
    {
        let first = &self.data[0];
        match poll_state(first.status.as_str()) {
            PollState::Committed => PollAction::Succeed,
            PollState::Invalid => PollAction::Fail(
                CliError::InvalidTransactionError(first.invalid_transactions[0].message.clone()),
            ),
            PollState::Pending => PollAction::Wait {
                millis: POLL_INTERVAL_MILLIS,
                link: String::from_str(handle),
            },
        }
    }
}

/// The number of answers at the head of a sequence that leave the batch
/// pending.
pub open spec fn pending_before(answers: Seq<StatusData>) -> int
    decreases answers.len(),
{
    if answers.len() == 0 || answers[0].state() != PollState::Pending {
        0
    } else {
        1 + pending_before(answers.drop_first())
    }
}

/// What the poller did with a sequence of answers.
#[derive(Clone, Debug, PartialEq, Eq)]
pub struct PollRun {
    /// The number of status requests that were answered.
    pub polls: usize,
    /// The number of pauses of [`POLL_INTERVAL_MILLIS`] that were made.
    pub waits: usize,
    /// The final action, or `None` while the batch is still pending.
    pub outcome: Option<PollAction>,
}

/// Whether the poller can act on each of `answers` that it reads: those
/// that leave the batch pending and the first one that does not. What
/// comes after that one is never read.
pub open spec fn readable(answers: Seq<StatusData>) -> bool {
    forall|i: int|
        0 <= i < answers.len() && i <= pending_before(answers) ==> (#[trigger] answers[i])
            .actionable()
}

/// Whether `run` is what the poller does with `answers` to its requests
/// at `handle`: it pauses once after each answer that leaves the batch
/// pending, stops at the first answer that does not, and does what that
/// answer decides.
pub open spec fn follows(run: PollRun, answers: Seq<StatusData>, handle: Seq<char>) -> bool {
    let waits = pending_before(answers);
    &&& run.waits == waits
    &&& if waits < answers.len() {
        &&& run.polls == waits + 1
        &&& run.outcome matches Some(action)
        &&& !(action is Wait)
        &&& answers[waits].decides(action, handle)
    } else {
        run.polls == waits && run.outcome is None
    }
}

/// `pending_before` is the place of the first answer that does not leave
/// the batch pending, or the length.
pub proof fn lemma_pending_before(answers: Seq<StatusData>, at: int)
    requires
        0 <= at <= answers.len(),
        forall|i: int| 0 <= i < at ==> (#[trigger] answers[i]).state() == PollState::Pending,
        at < answers.len() ==> answers[at].state() != PollState::Pending,
    ensures
        pending_before(answers) == at,
    decreases answers.len(),
{
    if at > 0 {
        let rest = answers.drop_first();
        assert(answers[0].state() == PollState::Pending);
        assert forall|i: int| 0 <= i < at - 1 implies (#[trigger] rest[i]).state()
            == PollState::Pending by {
            assert(rest[i] == answers[i + 1]);
        }
        lemma_pending_before(rest, at - 1);
    }
}

/// The first answers that leave the batch pending are no more than the
/// answers that stand before the first one that does not.
pub proof fn lemma_pending_prefix(answers: Seq<StatusData>, at: int)
    requires
        0 <= at <= answers.len(),
        forall|i: int| 0 <= i < at ==> (#[trigger] answers[i]).state() == PollState::Pending,
    ensures
        at <= pending_before(answers),
    decreases answers.len(),
{
    if answers.len() > 0 && answers[0].state() == PollState::Pending {
        let rest = answers.drop_first();
        let before = if at > 0 {
            at - 1
        } else {
            0
        };
        assert forall|i: int| 0 <= i < before implies (#[trigger] rest[i]).state()
            == PollState::Pending by {
            assert(rest[i] == answers[i + 1]);
        }
        lemma_pending_prefix(rest, before);
    }
}

/// Runs the poller over recorded answers of the gateway to its requests
/// at `handle`, in the order in which they came, without pausing.
pub fn replay(handle: &str, answers: &Vec<StatusData>) -> (run: PollRun)
    requires
        readable(answers@),
    ensures
        follows(run, answers@, handle@),
{
    let mut at: usize = 0;
    while at < answers.len()
        invariant
            at <= answers.len(),
            readable(answers@),
            forall|i: int| 0 <= i < at ==> (#[trigger] answers@[i]).state() == PollState::Pending,
        decreases answers.len() - at,
    {
        proof {
            lemma_pending_prefix(answers@, at as int);
        }
        let action = answers[at].next_action(handle);
        match action {
            PollAction::Wait { .. } => {},
            _ => {
                proof {
                    lemma_pending_before(answers@, at as int);
                }
                return PollRun { polls: at + 1, waits: at, outcome: Some(action) };
            },
        }
        at = at + 1;
    }
    proof {
        lemma_pending_before(answers@, at as int);
    }
    PollRun { polls: at, waits: at, outcome: None }
}

} // verus!
