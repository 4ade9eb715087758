//! Compression in two tiers: a native optimizer first, and the general
//! gateway once where the optimizer is missing or fails.
//!
//! Nothing here starts a process or looks at a file. The functions decide;
//! the caller runs the tools, measures the files, and reports back.

use crate::dispatch::{
    join_path, joined, ConfigView, DispatchConfig, DispatchRequest, Platform, RequestView,
};
use crate::error::{text_result, ErrorKind, Failure, FailureView};
use crate::text::{decoded, lossy_text, text_equal};
use vstd::prelude::*;

verus! {

/// One document to compress.
#[derive(Debug, PartialEq, Eq)]
pub struct CompressionJob {
    pub input_path: String,
    pub output_path: String,
    /// `low`, `medium` or `high`; anything else counts as `medium`.
    pub quality: String,
}

/// A job as a mathematical value.
pub struct JobView {
    pub input_path: Seq<char>,
    pub output_path: Seq<char>,
    pub quality: Seq<char>,
}

impl View for CompressionJob {
    type V = JobView;

    open spec fn view(&self) -> JobView {
        JobView {
            input_path: self.input_path@,
            output_path: self.output_path@,
            quality: self.quality@,
        }
    }
}

/// The profile of the optimizer that stands for a quality.
pub open spec fn profile_for(quality: Seq<char>) -> Seq<char> {
    if quality == "low"@ {
        "/screen"@
    } else if quality == "high"@ {
        "/printer"@
    } else {
        "/ebook"@
    }
}

/// Maps a quality to the profile of the optimizer; see [`profile_for`].
pub fn quality_profile(quality: &str) -> (r: &'static str)
    ensures
        r@ == profile_for(quality@),
{
    if text_equal(quality, "low") {
        "/screen"
    } else if text_equal(quality, "high") {
        "/printer"
    } else {
        "/ebook"
    }
}

/// The optimizer and its arguments.
#[derive(Debug, PartialEq, Eq)]
pub struct NativeInvocation {
    pub program: String,
    pub args: Vec<String>,
}

/// A native invocation as a mathematical value.
pub struct NativeView {
    pub program: Seq<char>,
    pub args: Seq<Seq<char>>,
}

impl View for NativeInvocation {
    type V = NativeView;

    open spec fn view(&self) -> NativeView {
        NativeView { program: self.program@, args: self.args.deep_view() }
    }
}

/// Where the bundled optimizer stands.
pub open spec fn bundled_optimizer(config: ConfigView) -> Seq<char> {
    let p = config.platform;
    joined(
        joined(joined(joined(config.app_dir, "resources"@, p), "ghostscript"@, p), "bin"@, p),
        "gswin64c.exe"@,
        p,
    )
}

/// The optimizer to start: the bundled one where it is there, else the one
/// that the system finds under its usual name.
pub open spec fn optimizer_program(config: ConfigView, bundled: bool) -> Seq<char> {
    if bundled {
        bundled_optimizer(config)
    } else {
        match config.platform {
            Platform::Windows => "gswin64c"@,
            Platform::Other => "gs"@,
        }
    }
}

/// The arguments that make the optimizer write `job.output_path` from
/// `job.input_path` under the profile of `job.quality`.
pub open spec fn optimizer_args(job: JobView) -> Seq<Seq<char>> {
    seq![
        "-sDEVICE=pdfwrite"@,
        "-dCompatibilityLevel=1.4"@,
        "-dPDFSETTINGS="@ + profile_for(job.quality),
        "-dNOPAUSE"@,
        "-dQUIET"@,
        "-dBATCH"@,
        "-sOutputFile="@ + job.output_path,
        job.input_path,
    ]
}

/// The path at which the bundled optimizer is looked for.
pub fn bundled_optimizer_path(config: &DispatchConfig) -> (r: String)
    ensures
        r@ == bundled_optimizer(config@),
{
    let p = config.platform;
    let resources = join_path(config.app_dir.as_str(), "resources", p);
    let home = join_path(resources.as_str(), "ghostscript", p);
    let bin = join_path(home.as_str(), "bin", p);
    join_path(bin.as_str(), "gswin64c.exe", p)
}

fn text_of(lead: &str, rest: &str) -> (r: String)
    ensures
        r@ == lead@ + rest@,
{
    let mut r = lead.to_owned();
    r.append(rest);
    r
}

/// Builds the native invocation for `job`. `bundled` says whether the
/// bundled optimizer is there.
pub fn native_invocation(config: &DispatchConfig, job: &CompressionJob, bundled: bool) -> (r:
    NativeInvocation)
    ensures
        r@.program == optimizer_program(config@, bundled),
        r@.args == optimizer_args(job@),
{
    let program = if bundled {
        bundled_optimizer_path(config)
    } else {
        match config.platform {
            Platform::Windows => "gswin64c".to_owned(),
            Platform::Other => "gs".to_owned(),
        }
    };
    let mut args: Vec<String> = Vec::new();
    args.push("-sDEVICE=pdfwrite".to_owned());
    args.push("-dCompatibilityLevel=1.4".to_owned());
    args.push(text_of("-dPDFSETTINGS=", quality_profile(job.quality.as_str())));
    args.push("-dNOPAUSE".to_owned());
    args.push("-dQUIET".to_owned());
    args.push("-dBATCH".to_owned());
    args.push(text_of("-sOutputFile=", job.output_path.as_str()));
    args.push(job.input_path.clone());
    assert(args.deep_view() =~= optimizer_args(job@));
    NativeInvocation { program, args }
}

/// The request that compresses `job` through the gateway. It carries the
/// quality as the caller gave it, not the profile of the optimizer.
pub open spec fn fallback_for(job: JobView) -> RequestView {
    RequestView {
        script: "pdf_editor.py"@,
        args: seq!["compress"@, job.input_path, job.output_path, job.quality],
    }
}

/// Builds the request that compresses `job` through the gateway.
pub fn fallback_request(job: &CompressionJob) -> (r: DispatchRequest)
    ensures
        r@ == fallback_for(job@),
{
    let mut args: Vec<String> = Vec::new();
    args.push("compress".to_owned());
    args.push(job.input_path.clone());
    args.push(job.output_path.clone());
    args.push(job.quality.clone());
    assert(args.deep_view() =~= fallback_for(job@).args);
    DispatchRequest { script: "pdf_editor.py".to_owned(), args }
}

/// How much smaller a file has become, as an exact fraction: the saving in
/// percent is `numerator / denominator`.
#[derive(Clone, Copy, Debug, PartialEq, Eq)]
pub struct CompressionRatio {
    pub numerator: i128,
    pub denominator: u64,
}

/// The saving in percent of a file that shrank from `original` bytes to
/// `compressed` bytes, `(1 - compressed / original) * 100`, as the fraction
/// `100 * (original - compressed) / original`.
pub open spec fn ratio_of(original: u64, compressed: u64) -> CompressionRatio {
    CompressionRatio {
        numerator: (100 * (original - compressed)) as i128,
        denominator: original,
    }
}

/// The saving in percent; see [`ratio_of`]. Fails where the file was empty
/// before it was compressed, for then there is no ratio.
pub fn calculate_compression_ratio(original_size: u64, compressed_size: u64) -> (r: Result<
    CompressionRatio,
    Failure,
>)
    ensures
        r is Err <==> original_size == 0,
        match r {
            Ok(ratio) => {
                &&& ratio == ratio_of(original_size, compressed_size)
                &&& ratio.numerator == 100 * (original_size - compressed_size)
                &&& ratio.denominator == original_size
            },
            Err(e) => e.kind == ErrorKind::ConstraintViolation && e.message@
                == "Original file is empty"@,
        },
{
    if original_size == 0 {
        return Err(Failure::new(ErrorKind::ConstraintViolation, "Original file is empty"));
    }
    let saved: i128 = original_size as i128 - compressed_size as i128;
    Ok(CompressionRatio { numerator: 100 * saved, denominator: original_size })
}

/// How the native attempt went.
#[derive(Debug, PartialEq, Eq)]
pub enum NativeOutcome {
    /// The input file is not there; the optimizer was not started.
    InputMissing,
    /// The optimizer could not be started.
    NotStarted,
    /// The optimizer ran and ended, with what it wrote to its error output.
    Exited { success: bool, stderr: Vec<u8> },
}

/// A native outcome as a mathematical value.
pub enum NativeOutcomeView {
    InputMissing,
    NotStarted,
    Exited { success: bool, stderr: Seq<u8> },
}

impl View for NativeOutcome {
    type V = NativeOutcomeView;

    open spec fn view(&self) -> NativeOutcomeView {
        match self {
            NativeOutcome::InputMissing => NativeOutcomeView::InputMissing,
            NativeOutcome::NotStarted => NativeOutcomeView::NotStarted,
            NativeOutcome::Exited { success, stderr } => NativeOutcomeView::Exited {
                success: *success,
                stderr: stderr@,
            },
        }
    }
}

/// What the native attempt comes to: a message where the optimizer ended
/// well, and otherwise the failure that says why it did not.
pub open spec fn native_result(job: JobView, outcome: NativeOutcomeView) -> Result<
    Seq<char>,
    FailureView,
> {
    match outcome {
        NativeOutcomeView::InputMissing => Err(
            FailureView {
                kind: ErrorKind::NotFound,
                message: "Input file not found: "@ + job.input_path,
            },
        ),
        NativeOutcomeView::NotStarted => Err(
            FailureView {
                kind: ErrorKind::ToolUnavailable,
                message: "Ghostscript not found. Using Python fallback."@,
            },
        ),
        NativeOutcomeView::Exited { success, stderr } => if success {
            Ok("PDF compressed successfully: "@ + job.output_path)
        } else {
            Err(
                FailureView {
                    kind: ErrorKind::ExecutionFailure,
                    message: "Ghostscript compression failed: "@ + decoded(stderr),
                },
            )
        },
    }
}

/// Says what the native attempt at `job` comes to; see [`native_result`].
pub fn compress_pdf(job: &CompressionJob, outcome: &NativeOutcome) -> (r: Result<String, Failure>)
    ensures
        text_result(r) == native_result(job@, outcome@),
{
    match outcome {
        NativeOutcome::InputMissing => Err(
            Failure::with_detail(
                ErrorKind::NotFound,
                "Input file not found: ",
                job.input_path.as_str(),
            ),
        ),
        NativeOutcome::NotStarted => Err(
            Failure::new(
                ErrorKind::ToolUnavailable,
                "Ghostscript not found. Using Python fallback.",
            ),
        ),
        NativeOutcome::Exited { success, stderr } => if *success {
            Ok(text_of("PDF compressed successfully: ", job.output_path.as_str()))
        } else {
            let detail = lossy_text(stderr.as_slice());
            Err(
                Failure::with_detail(
                    ErrorKind::ExecutionFailure,
                    "Ghostscript compression failed: ",
                    detail.as_str(),
                ),
            )
        },
    }
}

/// What a compression that went well reports.
#[derive(Debug, PartialEq, Eq)]
pub struct CompressionReport {
    pub message: String,
    /// The saving, where the two files could be measured.
    pub ratio: Option<CompressionRatio>,
}

/// A report as a mathematical value.
pub struct ReportView {
    pub message: Seq<char>,
    pub ratio: Option<CompressionRatio>,
}

impl View for CompressionReport {
    type V = ReportView;

    open spec fn view(&self) -> ReportView {
        ReportView { message: self.message@, ratio: self.ratio }
    }
}

/// The end of a compression as a mathematical value.
pub open spec fn report_result(r: Result<CompressionReport, Failure>) -> Result<
    ReportView,
    FailureView,
> {
    match r {
        Ok(report) => Ok(report@),
        Err(e) => Err(e@),
    }
}

/// Where one compression stands.
#[derive(Debug, PartialEq, Eq)]
pub enum CompressionState {
    /// Nothing has happened yet.
    Ready,
    /// The caller was handed the native invocation.
    Native,
    /// The caller was handed the request for the gateway.
    Fallback,
    /// One of the two went well, with this message; the caller was asked for
    /// the sizes of the two files.
    Measuring { message: String },
    /// The compression is over.
    Done,
}

/// A state as a mathematical value.
pub enum StateView {
    Ready,
    Native,
    Fallback,
    Measuring { message: Seq<char> },
    Done,
}

impl View for CompressionState {
    type V = StateView;

    open spec fn view(&self) -> StateView {
        match self {
            CompressionState::Ready => StateView::Ready,
            CompressionState::Native => StateView::Native,
            CompressionState::Fallback => StateView::Fallback,
            CompressionState::Measuring { message } => StateView::Measuring { message: message@ },
            CompressionState::Done => StateView::Done,
        }
    }
}

/// What the caller reports to the orchestrator.
#[derive(Debug, PartialEq, Eq)]
pub enum CompressionEvent {
    /// The compression is to begin. The caller says whether the input file
    /// and the bundled optimizer are there.
    Begin { input_exists: bool, bundled: bool },
    /// The native attempt is over.
    NativeFinished(NativeOutcome),
    /// The gateway is done with the request, with this result.
    FallbackFinished(Result<String, Failure>),
    /// The sizes of the input file and of the output file, in bytes.
    Measured { original_size: u64, compressed_size: u64 },
    /// A size could not be had.
    NotMeasured,
}

/// An event as a mathematical value.
pub enum CompressionEventView {
    Begin { input_exists: bool, bundled: bool },
    NativeFinished(NativeOutcomeView),
    FallbackFinished(Result<Seq<char>, FailureView>),
    Measured { original_size: u64, compressed_size: u64 },
    NotMeasured,
}

impl View for CompressionEvent {
    type V = CompressionEventView;

    open spec fn view(&self) -> CompressionEventView {
        match self {
            CompressionEvent::Begin { input_exists, bundled } => CompressionEventView::Begin {
                input_exists: *input_exists,
                bundled: *bundled,
            },
            CompressionEvent::NativeFinished(outcome) => CompressionEventView::NativeFinished(
                outcome@,
            ),
            CompressionEvent::FallbackFinished(r) => CompressionEventView::FallbackFinished(
                text_result(*r),
            ),
            CompressionEvent::Measured { original_size, compressed_size } => {
                CompressionEventView::Measured {
                    original_size: *original_size,
                    compressed_size: *compressed_size,
                }
            },
            CompressionEvent::NotMeasured => CompressionEventView::NotMeasured,
        }
    }
}

/// What the orchestrator asks of the caller.
#[derive(Debug, PartialEq, Eq)]
pub enum CompressionAction {
    /// Start the optimizer, not through the gateway, and report how it went.
    RunNative(NativeInvocation),
    /// Hand this request to the gateway and report its result.
    RunFallback(DispatchRequest),
    /// Report the sizes of the input file and of the output file.
    Measure,
    /// The compression is over, with this result.
    Finish(Result<CompressionReport, Failure>),
    /// The event was not expected; nothing is to be done.
    Ignore,
}

/// An action as a mathematical value.
pub enum CompressionActionView {
    RunNative(NativeView),
    RunFallback(RequestView),
    Measure,
    Finish(Result<ReportView, FailureView>),
    Ignore,
}

impl View for CompressionAction {
    type V = CompressionActionView;

    open spec fn view(&self) -> CompressionActionView {
        match self {
            CompressionAction::RunNative(invocation) => CompressionActionView::RunNative(
                invocation@,
            ),
            CompressionAction::RunFallback(request) => CompressionActionView::RunFallback(
                request@,
            ),
            CompressionAction::Measure => CompressionActionView::Measure,
            CompressionAction::Finish(r) => CompressionActionView::Finish(report_result(*r)),
            CompressionAction::Ignore => CompressionActionView::Ignore,
        }
    }
}

/// The end of a compression whose files were measured: the message with the
/// ratio, or the failure that the file was empty to begin with. Where the
/// files could not be measured, the compression ends with the message alone.
pub open spec fn measured_result(message: Seq<char>, original_size: u64, compressed_size: u64) -> Result<
    ReportView,
    FailureView,
> {
    if original_size == 0 {
        Err(
            FailureView {
                kind: ErrorKind::ConstraintViolation,
                message: "Original file is empty"@,
            },
        )
    } else {
        Ok(ReportView { message, ratio: Some(ratio_of(original_size, compressed_size)) })
    }
}

/// The state after an event, and what the caller is to do next.
pub open spec fn compression_next(
    config: ConfigView,
    job: JobView,
    state: StateView,
    event: CompressionEventView,
) -> (StateView, CompressionActionView) {
    match (state, event) {
        (StateView::Ready, CompressionEventView::Begin { input_exists, bundled }) => {
            if input_exists {
                (
                    StateView::Native,
                    CompressionActionView::RunNative(
                        NativeView {
                            program: optimizer_program(config, bundled),
                            args: optimizer_args(job),
                        },
                    ),
                )
            } else {
                (StateView::Fallback, CompressionActionView::RunFallback(fallback_for(job)))
            }
        },
        (StateView::Native, CompressionEventView::NativeFinished(outcome)) => {
            match native_result(job, outcome) {
                Ok(message) => (StateView::Measuring { message }, CompressionActionView::Measure),
                Err(_) => (
                    StateView::Fallback,
                    CompressionActionView::RunFallback(fallback_for(job)),
                ),
            }
        },
        (StateView::Fallback, CompressionEventView::FallbackFinished(r)) => match r {
            Ok(message) => (StateView::Measuring { message }, CompressionActionView::Measure),
            Err(e) => (StateView::Done, CompressionActionView::Finish(Err(e))),
        },
        (
            StateView::Measuring { message },
            CompressionEventView::Measured { original_size, compressed_size },
        ) => (
            StateView::Done,
            CompressionActionView::Finish(measured_result(message, original_size, compressed_size)),
        ),
        (StateView::Measuring { message }, CompressionEventView::NotMeasured) => (
            StateView::Done,
            CompressionActionView::Finish(Ok(ReportView { message, ratio: None })),
        ),
        _ => (state, CompressionActionView::Ignore),
    }
}

/// Takes one compression one step further: given where it stands and what
/// the caller reports, says where it stands now and what the caller is to do.
///
/// A compression starts in [`CompressionState::Ready`] and is begun with
/// [`CompressionEvent::Begin`]. It is over when the action is
/// [`CompressionAction::Finish`].
pub fn compression_step(
    config: &DispatchConfig,
    job: &CompressionJob,
    state: CompressionState,
    event: &CompressionEvent,
) -> (r: (CompressionState, CompressionAction))
    ensures
        (r.0@, r.1@) == compression_next(config@, job@, state@, event@),
{
    match state {
        CompressionState::Ready => match event {
            CompressionEvent::Begin { input_exists, bundled } => {
                if *input_exists {
                    (
                        CompressionState::Native,
                        CompressionAction::RunNative(native_invocation(config, job, *bundled)),
                    )
                } else {
                    (
                        CompressionState::Fallback,
                        CompressionAction::RunFallback(fallback_request(job)),
                    )
                }
            },
            _ => (CompressionState::Ready, CompressionAction::Ignore),
        },
        CompressionState::Native => match event {
            CompressionEvent::NativeFinished(outcome) => match compress_pdf(job, outcome) {
                Ok(message) => (CompressionState::Measuring { message }, CompressionAction::Measure),
                Err(_) => (
                    CompressionState::Fallback,
                    CompressionAction::RunFallback(fallback_request(job)),
                ),
            },
            _ => (CompressionState::Native, CompressionAction::Ignore),
        },
        CompressionState::Fallback => match event {
            CompressionEvent::FallbackFinished(r) => match r {
                Ok(message) => (
                    CompressionState::Measuring { message: message.clone() },
                    CompressionAction::Measure,
                ),
                Err(e) => (CompressionState::Done, CompressionAction::Finish(Err(e.clone()))),
            },
            _ => (CompressionState::Fallback, CompressionAction::Ignore),
        },
        CompressionState::Measuring { message } => match event {
            CompressionEvent::Measured { original_size, compressed_size } => {
                let end = match calculate_compression_ratio(*original_size, *compressed_size) {
                    Ok(ratio) => Ok(CompressionReport { message, ratio: Some(ratio) }),
                    Err(e) => Err(e),
                };
                (CompressionState::Done, CompressionAction::Finish(end))
            },
            CompressionEvent::NotMeasured => (
                CompressionState::Done,
                CompressionAction::Finish(Ok(CompressionReport { message, ratio: None })),
            ),
            _ => (CompressionState::Measuring { message }, CompressionAction::Ignore),
        },
        CompressionState::Done => (CompressionState::Done, CompressionAction::Ignore),
    }
}

} // verus!
