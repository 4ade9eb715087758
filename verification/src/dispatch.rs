//! The gateway to external processing tools: which program stands for a
//! named operation, in which environment it runs, and what its end means.
//!
//! Nothing here starts a process. The functions decide; the caller starts
//! the program, waits, and reports back what happened.

use crate::error::{text_result, ErrorKind, Failure, FailureView};
use crate::text::{decoded, lossy_text, remove_all, without};
use vstd::prelude::*;

verus! {

/// The kind of system the application runs on, as far as the gateway cares.
#[derive(Clone, Copy, Debug, PartialEq, Eq, Structural)]
pub enum Platform {
    Windows,
    Other,
}

/// How the application was built.
#[derive(Clone, Copy, Debug, PartialEq, Eq, Structural)]
pub enum BuildMode {
    /// Operations are scripts, run by an interpreter.
    Development,
    /// Operations are executables that stand beside the application.
    Packaged,
}

/// What the gateway needs to know of its surroundings.
#[derive(Debug, PartialEq, Eq)]
pub struct DispatchConfig {
    pub platform: Platform,
    pub mode: BuildMode,
    /// The directory that holds the application and its bundled tools.
    pub app_dir: String,
    /// The search path of the application's own environment.
    pub search_path: String,
}

/// A configuration as a mathematical value.
pub struct ConfigView {
    pub platform: Platform,
    pub mode: BuildMode,
    pub app_dir: Seq<char>,
    pub search_path: Seq<char>,
}

impl View for DispatchConfig {
    type V = ConfigView;

    open spec fn view(&self) -> ConfigView {
        ConfigView {
            platform: self.platform,
            mode: self.mode,
            app_dir: self.app_dir@,
            search_path: self.search_path@,
        }
    }
}

/// A named operation with its arguments in order.
#[derive(Debug, PartialEq, Eq)]
pub struct DispatchRequest {
    /// The script that implements the operation, such as `pdf_editor.py`.
    pub script: String,
    pub args: Vec<String>,
}

/// A request as a mathematical value.
pub struct RequestView {
    pub script: Seq<char>,
    pub args: Seq<Seq<char>>,
}

impl View for DispatchRequest {
    type V = RequestView;

    open spec fn view(&self) -> RequestView {
        RequestView { script: self.script@, args: self.args.deep_view() }
    }
}

/// A program to start, with its arguments and the two variables of its
/// environment that differ from the application's own.
#[derive(Debug, PartialEq, Eq)]
pub struct Invocation {
    pub program: String,
    pub args: Vec<String>,
    /// The value of the variable `PATH`.
    pub search_path: String,
    /// The value of the variable `TESSDATA_PREFIX`.
    pub data_dir: String,
    /// Whether the system is to be kept from opening a console window.
    pub hide_console: bool,
}

/// An invocation as a mathematical value.
pub struct InvocationView {
    pub program: Seq<char>,
    pub args: Seq<Seq<char>>,
    pub search_path: Seq<char>,
    pub data_dir: Seq<char>,
    pub hide_console: bool,
}

impl View for Invocation {
    type V = InvocationView;

    open spec fn view(&self) -> InvocationView {
        InvocationView {
            program: self.program@,
            args: self.args.deep_view(),
            search_path: self.search_path@,
            data_dir: self.data_dir@,
            hide_console: self.hide_console,
        }
    }
}

/// What stands between the parts of a path.
pub open spec fn separator(platform: Platform) -> Seq<char> {
    match platform {
        Platform::Windows => "\\"@,
        Platform::Other => "/"@,
    }
}

/// What stands between the directories of a search path.
pub open spec fn list_separator(platform: Platform) -> Seq<char> {
    match platform {
        Platform::Windows => ";"@,
        Platform::Other => ":"@,
    }
}

/// Whether `dir` needs no separator before a name is put behind it: it is
/// empty, or it ends with a separator already.
pub open spec fn is_open_ended(dir: Seq<char>, platform: Platform) -> bool {
    dir.len() == 0 || dir.last() == '/' || (platform == Platform::Windows && dir.last() == '\\')
}

/// The path of `name` in `dir`.
pub open spec fn joined(dir: Seq<char>, name: Seq<char>, platform: Platform) -> Seq<char> {
    if is_open_ended(dir, platform) {
        dir + name
    } else {
        dir + separator(platform) + name
    }
}

/// The directory of the bundled rendering library.
pub open spec fn render_dir(config: ConfigView) -> Seq<char> {
    joined(config.app_dir, "poppler"@, config.platform)
}

/// The directory of the bundled text recognition engine.
pub open spec fn ocr_dir(config: ConfigView) -> Seq<char> {
    joined(config.app_dir, "tesseract"@, config.platform)
}

/// The search path of a started tool: the two tool directories in front of
/// the application's own search path.
pub open spec fn tool_search_path(config: ConfigView) -> Seq<char> {
    render_dir(config) + list_separator(config.platform) + ocr_dir(config) + list_separator(
        config.platform,
    ) + config.search_path
}

/// The directory of the language data of the text recognition engine.
pub open spec fn tool_data_dir(config: ConfigView) -> Seq<char> {
    joined(ocr_dir(config), "tessdata"@, config.platform)
}

/// The path of a script in development: in `python-scripts` beside the
/// working directory.
pub open spec fn script_path(script: Seq<char>, platform: Platform) -> Seq<char> {
    joined(joined(".."@, "python-scripts"@, platform), script, platform)
}

/// The file name of the executable that stands for a script: the name of the
/// script without `.py`, and with `.exe` on Windows.
pub open spec fn executable_name(script: Seq<char>, platform: Platform) -> Seq<char> {
    match platform {
        Platform::Windows => without(script, ".py"@) + ".exe"@,
        Platform::Other => without(script, ".py"@),
    }
}

/// The invocation that carries out `request`. In development it starts
/// `interpreter` on the script; packaged, it starts the executable beside the
/// application, and `interpreter` plays no part.
pub open spec fn invocation_for(config: ConfigView, request: RequestView, interpreter: Seq<char>) -> InvocationView {
    InvocationView {
        program: match config.mode {
            BuildMode::Development => interpreter,
            BuildMode::Packaged => joined(
                config.app_dir,
                executable_name(request.script, config.platform),
                config.platform,
            ),
        },
        args: match config.mode {
            BuildMode::Development => seq![script_path(request.script, config.platform)]
                + request.args,
            BuildMode::Packaged => request.args,
        },
        search_path: tool_search_path(config),
        data_dir: tool_data_dir(config),
        hide_console: config.platform == Platform::Windows,
    }
}

fn separator_of(platform: Platform) -> (r: &'static str)
    ensures
        r@ == separator(platform),
{
    match platform {
        Platform::Windows => "\\",
        Platform::Other => "/",
    }
}

fn list_separator_of(platform: Platform) -> (r: &'static str)
    ensures
        r@ == list_separator(platform),
{
    match platform {
        Platform::Windows => ";",
        Platform::Other => ":",
    }
}

/// Puts `name` behind `dir`, with a separator between them where `dir` does
/// not end with one.
pub fn join_path(dir: &str, name: &str, platform: Platform) -> (r: String)
    ensures
        r@ == joined(dir@, name@, platform),
{
    let n: usize = dir.unicode_len();
    let open_ended = if n == 0 {
        true
    } else {
        let last = dir.get_char(n - 1);
        last == '/' || (platform == Platform::Windows && last == '\\')
    };
    let mut r = dir.to_owned();
    if !open_ended {
        r.append(separator_of(platform));
    }
    r.append(name);
    r
}

/// Copies a list of texts.
fn copy_texts(texts: &Vec<String>) -> (r: Vec<String>)
    ensures
        r.deep_view() == texts.deep_view(),
{
    let mut r: Vec<String> = Vec::new();
    let mut i: usize = 0;
    while i < texts.len()
        invariant
            i <= texts.len(),
            r.deep_view() == texts.deep_view().take(i as int),
        decreases texts.len() - i,
    {
        let ghost so_far = r.deep_view();
        r.push(texts[i].clone());
        assert(r.deep_view() =~= so_far.push(texts.deep_view()[i as int]));
        assert(texts.deep_view().take(i + 1) =~= texts.deep_view().take(i as int).push(
            texts.deep_view()[i as int],
        ));
        i += 1;
    }
    assert(texts.deep_view().take(i as int) =~= texts.deep_view());
    r
}

/// Builds the invocation that carries out `request`; see
/// [`invocation_for`].
pub fn build_invocation(config: &DispatchConfig, request: &DispatchRequest, interpreter: &str) -> (r:
    Invocation)
    ensures
        r@ == invocation_for(config@, request@, interpreter@),
{
    let platform = config.platform;
    let app_dir = config.app_dir.as_str();
    let render = join_path(app_dir, "poppler", platform);
    let ocr = join_path(app_dir, "tesseract", platform);
    let data_dir = join_path(ocr.as_str(), "tessdata", platform);
    let mut search_path = render;
    search_path.append(list_separator_of(platform));
    search_path.append(ocr.as_str());
    search_path.append(list_separator_of(platform));
    search_path.append(config.search_path.as_str());
    let mut args: Vec<String> = Vec::new();
    let program = match config.mode {
        BuildMode::Development => {
            let scripts = join_path("..", "python-scripts", platform);
            args.push(join_path(scripts.as_str(), request.script.as_str(), platform));
            interpreter.to_owned()
        },
        BuildMode::Packaged => {
            let mut name = remove_all(request.script.as_str(), ".py");
            match platform {
                Platform::Windows => {
                    name.append(".exe");
                },
                Platform::Other => {},
            }
            join_path(app_dir, name.as_str(), platform)
        },
    };
    let ghost lead = args.deep_view();
    let mut rest = copy_texts(&request.args);
    args.append(&mut rest);
    assert(args.deep_view() =~= lead + request.args.deep_view());
    let hide_console = match platform {
        Platform::Windows => true,
        Platform::Other => false,
    };
    let r = Invocation { program, args, search_path, data_dir, hide_console };
    proof {
        let want = invocation_for(config@, request@, interpreter@);
        assert(r@.program == want.program);
        assert(r@.search_path == want.search_path);
        assert(r@.data_dir == want.data_dir);
        assert(r@.hide_console == want.hide_console);
        assert(lead =~= match config.mode {
            BuildMode::Development => seq![script_path(request@.script, config.platform)],
            BuildMode::Packaged => Seq::empty(),
        });
        assert(r@.args =~= want.args);
    }
    r
}

/// Where one invocation of the gateway stands.
#[derive(Clone, Copy, Debug, PartialEq, Eq, Structural)]
pub enum DispatchState {
    /// Nothing has happened yet.
    Resolving,
    /// Still resolving: the caller was asked whether the interpreter with
    /// this number can be started.
    Probing(u8),
    /// The caller was handed the invocation.
    Spawning,
    /// The program has started.
    Running,
    /// The program ended well.
    Succeeded,
    /// The program ended badly.
    FailedExit,
    /// No program could be found or started.
    FailedToSpawn,
}

/// What the caller reports to the gateway.
#[derive(Debug, PartialEq, Eq)]
pub enum DispatchEvent {
    /// The invocation is to begin.
    Begin,
    /// Whether the interpreter asked about could be started.
    Probed { found: bool },
    /// The program has started.
    Started,
    /// The program could not be started.
    NotStarted { reason: String },
    /// The program has ended, with what it wrote.
    Exited { success: bool, stdout: Vec<u8>, stderr: Vec<u8> },
}

/// An event as a mathematical value.
pub enum EventView {
    Begin,
    Probed { found: bool },
    Started,
    NotStarted { reason: Seq<char> },
    Exited { success: bool, stdout: Seq<u8>, stderr: Seq<u8> },
}

impl View for DispatchEvent {
    type V = EventView;

    open spec fn view(&self) -> EventView {
        match self {
            DispatchEvent::Begin => EventView::Begin,
            DispatchEvent::Probed { found } => EventView::Probed { found: *found },
            DispatchEvent::Started => EventView::Started,
            DispatchEvent::NotStarted { reason } => EventView::NotStarted { reason: reason@ },
            DispatchEvent::Exited { success, stdout, stderr } => EventView::Exited {
                success: *success,
                stdout: stdout@,
                stderr: stderr@,
            },
        }
    }
}

/// What the gateway asks of the caller.
#[derive(Debug, PartialEq, Eq)]
pub enum DispatchAction {
    /// Try to start this interpreter with the one argument `--version`, and
    /// report whether it could be started.
    Probe(String),
    /// Start this program and report whether it started, or how it ended.
    Spawn(Invocation),
    /// Wait for the program to end and report how it ended.
    Wait,
    /// The invocation is over, with this result.
    Finish(Result<String, Failure>),
    /// The event was not expected; nothing is to be done.
    Ignore,
}

/// An action as a mathematical value.
pub enum ActionView {
    Probe(Seq<char>),
    Spawn(InvocationView),
    Wait,
    Finish(Result<Seq<char>, FailureView>),
    Ignore,
}

impl View for DispatchAction {
    type V = ActionView;

    open spec fn view(&self) -> ActionView {
        match self {
            DispatchAction::Probe(program) => ActionView::Probe(program@),
            DispatchAction::Spawn(invocation) => ActionView::Spawn(invocation@),
            DispatchAction::Wait => ActionView::Wait,
            DispatchAction::Finish(r) => ActionView::Finish(text_result(*r)),
            DispatchAction::Ignore => ActionView::Ignore,
        }
    }
}

/// The interpreters that are tried in development, in order. On Windows
/// each is probed before it is used; elsewhere the one is used as it is.
pub open spec fn interpreter(platform: Platform, number: int) -> Option<Seq<char>> {
    match platform {
        Platform::Windows => if number == 0 {
            Some("py"@)
        } else if number == 1 {
            Some("python"@)
        } else {
            None
        },
        Platform::Other => if number == 0 {
            Some("python3"@)
        } else {
            None
        },
    }
}

/// How a program that has ended is reported: what it wrote to its output
/// where it ended well, what it wrote to its error output where it did not.
pub open spec fn exit_result(success: bool, stdout: Seq<u8>, stderr: Seq<u8>) -> Result<
    Seq<char>,
    FailureView,
> {
    if success {
        Ok(decoded(stdout))
    } else {
        Err(FailureView { kind: ErrorKind::ExecutionFailure, message: decoded(stderr) })
    }
}

/// How a program that could not be started is reported.
pub open spec fn start_failure(reason: Seq<char>) -> FailureView {
    FailureView { kind: ErrorKind::ToolUnavailable, message: "Failed to execute: "@ + reason }
}

/// How it is reported that no interpreter was found.
pub open spec fn no_interpreter() -> FailureView {
    FailureView {
        kind: ErrorKind::ToolUnavailable,
        message: "Python not found. Please install Python from python.org"@,
    }
}

/// The state after an event, and what the caller is to do next.
pub open spec fn dispatch_next(
    config: ConfigView,
    request: RequestView,
    state: DispatchState,
    event: EventView,
) -> (DispatchState, ActionView) {
    match (state, event) {
        (DispatchState::Resolving, EventView::Begin) => {
            if config.mode == BuildMode::Development && config.platform == Platform::Windows {
                (DispatchState::Probing(0), ActionView::Probe(interpreter(config.platform, 0)->0))
            } else {
                (
                    DispatchState::Spawning,
                    ActionView::Spawn(
                        invocation_for(config, request, interpreter(config.platform, 0)->0),
                    ),
                )
            }
        },
        (DispatchState::Probing(number), EventView::Probed { found }) => {
            if config.mode != BuildMode::Development {
                (state, ActionView::Ignore)
            } else if interpreter(config.platform, number as int) is None {
                (DispatchState::FailedToSpawn, ActionView::Finish(Err(no_interpreter())))
            } else if found {
                (
                    DispatchState::Spawning,
                    ActionView::Spawn(
                        invocation_for(
                            config,
                            request,
                            interpreter(config.platform, number as int)->0,
                        ),
                    ),
                )
            } else if interpreter(config.platform, number + 1) is Some {
                (
                    DispatchState::Probing((number + 1) as u8),
                    ActionView::Probe(interpreter(config.platform, number + 1)->0),
                )
            } else {
                (DispatchState::FailedToSpawn, ActionView::Finish(Err(no_interpreter())))
            }
        },
        (DispatchState::Spawning, EventView::Started) => (DispatchState::Running, ActionView::Wait),
        (DispatchState::Spawning, EventView::NotStarted { reason }) => (
            DispatchState::FailedToSpawn,
            ActionView::Finish(Err(start_failure(reason))),
        ),
        (DispatchState::Spawning, EventView::Exited { success, stdout, stderr }) => (
            if success {
                DispatchState::Succeeded
            } else {
                DispatchState::FailedExit
            },
            ActionView::Finish(exit_result(success, stdout, stderr)),
        ),
        (DispatchState::Running, EventView::Exited { success, stdout, stderr }) => (
            if success {
                DispatchState::Succeeded
            } else {
                DispatchState::FailedExit
            },
            ActionView::Finish(exit_result(success, stdout, stderr)),
        ),
        _ => (state, ActionView::Ignore),
    }
}

/// The interpreter with the given number, if there is one.
fn interpreter_of(platform: Platform, number: u8) -> (r: Option<&'static str>)
    ensures
        match r {
            Some(name) => interpreter(platform, number as int) == Some(name@),
            None => interpreter(platform, number as int) is None,
        },
{
    match platform {
        Platform::Windows => if number == 0 {
            Some("py")
        } else if number == 1 {
            Some("python")
        } else {
            None
        },
        Platform::Other => if number == 0 {
            Some("python3")
        } else {
            None
        },
    }
}

/// Reports a program that has ended; see [`exit_result`].
pub fn classify_exit(success: bool, stdout: &[u8], stderr: &[u8]) -> (r: Result<String, Failure>)
    ensures
        text_result(r) == exit_result(success, stdout@, stderr@),
{
    if success {
        Ok(lossy_text(stdout))
    } else {
        Err(Failure { kind: ErrorKind::ExecutionFailure, message: lossy_text(stderr) })
    }
}

fn finish_exit(success: bool, stdout: &[u8], stderr: &[u8]) -> (r: (DispatchState, DispatchAction))
    ensures
        r.0 == (if success {
            DispatchState::Succeeded
        } else {
            DispatchState::FailedExit
        }),
        r.1@ == ActionView::Finish(exit_result(success, stdout@, stderr@)),
{
    let state = if success {
        DispatchState::Succeeded
    } else {
        DispatchState::FailedExit
    };
    (state, DispatchAction::Finish(classify_exit(success, stdout, stderr)))
}

fn finish_without_interpreter() -> (r: (DispatchState, DispatchAction))
    ensures
        r.0 == DispatchState::FailedToSpawn,
        r.1@ == ActionView::Finish(Err(no_interpreter())),
{
    (
        DispatchState::FailedToSpawn,
        DispatchAction::Finish(
            Err(
                Failure::new(
                    ErrorKind::ToolUnavailable,
                    "Python not found. Please install Python from python.org",
                ),
            ),
        ),
    )
}

/// Takes one invocation one step further: given where it stands and what the
/// caller reports, says where it stands now and what the caller is to do.
///
/// An invocation starts in [`DispatchState::Resolving`] and is begun with
/// [`DispatchEvent::Begin`]. It is over when the action is
/// [`DispatchAction::Finish`].
pub fn dispatch_step(
    config: &DispatchConfig,
    request: &DispatchRequest,
    state: DispatchState,
    event: &DispatchEvent,
) -> (r: (DispatchState, DispatchAction))
    ensures
        (r.0, r.1@) == dispatch_next(config@, request@, state, event@),
{
    match state {
        DispatchState::Resolving => match event {
            DispatchEvent::Begin => {
                let first = match interpreter_of(config.platform, 0) {
                    Some(name) => name,
                    None => "",
                };
                let probes = match (config.mode, config.platform) {
                    (BuildMode::Development, Platform::Windows) => true,
                    _ => false,
                };
                if probes {
                    (DispatchState::Probing(0), DispatchAction::Probe(first.to_owned()))
                } else {
                    (
                        DispatchState::Spawning,
                        DispatchAction::Spawn(build_invocation(config, request, first)),
                    )
                }
            },
            _ => (state, DispatchAction::Ignore),
        },
        DispatchState::Probing(number) => match event {
            DispatchEvent::Probed { found } => match interpreter_of(config.platform, number) {
                _ if config.mode != BuildMode::Development => (state, DispatchAction::Ignore),
                None => finish_without_interpreter(),
                Some(name) => {
                    if *found {
                        (
                            DispatchState::Spawning,
                            DispatchAction::Spawn(build_invocation(config, request, name)),
                        )
                    } else if number < u8::MAX {
                        match interpreter_of(config.platform, number + 1) {
                            Some(next) => (
                                DispatchState::Probing(number + 1),
                                DispatchAction::Probe(next.to_owned()),
                            ),
                            None => finish_without_interpreter(),
                        }
                    } else {
                        finish_without_interpreter()
                    }
                },
            },
            _ => (state, DispatchAction::Ignore),
        },
        DispatchState::Spawning => match event {
            DispatchEvent::Started => (DispatchState::Running, DispatchAction::Wait),
            DispatchEvent::NotStarted { reason } => (
                DispatchState::FailedToSpawn,
                DispatchAction::Finish(
                    Err(
                        Failure::with_detail(
                            ErrorKind::ToolUnavailable,
                            "Failed to execute: ",
                            reason.as_str(),
                        ),
                    ),
                ),
            ),
            DispatchEvent::Exited { success, stdout, stderr } => finish_exit(
                *success,
                stdout.as_slice(),
                stderr.as_slice(),
            ),
            _ => (state, DispatchAction::Ignore),
        },
        DispatchState::Running => match event {
            DispatchEvent::Exited { success, stdout, stderr } => finish_exit(
                *success,
                stdout.as_slice(),
                stderr.as_slice(),
            ),
            _ => (state, DispatchAction::Ignore),
        },
        _ => (state, DispatchAction::Ignore),
    }
}

} // verus!
