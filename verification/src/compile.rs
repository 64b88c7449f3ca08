//! The run of the resource compiler, step by step: what to do next, given
//! what happened last.

use vstd::prelude::*;
use vstd::string::StringExecFns;
use crate::text::texts;
use crate::path::{join, path_join};
use crate::descriptor::Descriptor;
use crate::resource::WindowsResource;
use crate::textmap::Entries;

verus! {

/// The family of tools that compiles the resource.
#[derive(PartialEq, Eq, Structural, Debug, Clone, Copy)]
pub enum Toolkit {
    /// `windres` and `ar` of the GNU tools: an object file, wrapped into a
    /// static archive.
    Gnu,
    /// `rc.exe` of a Windows SDK: one compiled resource.
    Msvc,
    /// Neither: nothing can be compiled.
    Unsupported,
}

impl Toolkit {
    /// The family that serves a target environment: `Gnu` for `gnu`, `Msvc`
    /// for `msvc`, and none for any other.
    pub open spec fn of(target_env: Seq<char>) -> Toolkit {
        if target_env == "gnu"@ {
            Toolkit::Gnu
        } else if target_env == "msvc"@ {
            Toolkit::Msvc
        } else {
            Toolkit::Unsupported
        }
    }

    /// The family that serves the target environment of a build.
    pub fn for_target_env(target_env: &str) -> (toolkit: Toolkit)
        ensures
            toolkit == Toolkit::of(target_env@),
    {
        let target = target_env.to_owned();
        if target == "gnu".to_owned() {
            Toolkit::Gnu
        } else if target == "msvc".to_owned() {
            Toolkit::Msvc
        } else {
            Toolkit::Unsupported
        }
    }
}

/// A program that is run in the course of a compilation.
#[derive(PartialEq, Eq, Structural, Debug, Clone, Copy)]
pub enum Stage {
    /// The resource compiler: `windres` or `rc.exe`.
    ResourceCompiler,
    /// The archiver `ar`.
    Archiver,
}

/// Why a compilation failed.
#[derive(PartialEq, Eq, Structural, Debug, Clone, Copy)]
pub enum CompileError {
    /// The target environment has no resource compiler that is known here.
    UnsupportedToolchain,
    /// A program ended with a status other than success.
    SubprocessFailed { stage: Stage },
}

impl CompileError {
    /// The error in words.
    pub open spec fn text(self) -> Seq<char> {
        match self {
            CompileError::UnsupportedToolchain => {
                "Can only compile resource file when target_env is \"gnu\" or \"msvc\""@
            },
            CompileError::SubprocessFailed { stage: Stage::ResourceCompiler } => {
                "Could not compile resource file"@
            },
            CompileError::SubprocessFailed { stage: Stage::Archiver } => {
                "Could not create static library for resource file"@
            },
        }
    }

    /// The error in words.
    pub fn message(&self) -> (text: &'static str)
        ensures
            text@ == self.text(),
    {
        match self {
            CompileError::UnsupportedToolchain => {
                "Can only compile resource file when target_env is \"gnu\" or \"msvc\""
            },
            CompileError::SubprocessFailed { stage: Stage::ResourceCompiler } => {
                "Could not compile resource file"
            },
            CompileError::SubprocessFailed { stage: Stage::Archiver } => {
                "Could not create static library for resource file"
            },
        }
    }
}

/// What a `Command` holds, as mathematical values.
pub struct CommandView {
    pub program: Seq<char>,
    pub args: Seq<Seq<char>>,
    pub current_dir: Option<Seq<char>>,
    pub capture: bool,
}

/// A program to run, with its arguments.
#[derive(Debug, PartialEq, Eq)]
pub struct Command {
    /// The program, by path or by name.
    pub program: String,
    /// The arguments, in order.
    pub args: Vec<String>,
    /// The directory to run the program in, if it is not the current one.
    pub current_dir: Option<String>,
    /// Whether to keep what the program writes to standard output and
    /// standard error, and hand it back with the exit.
    pub capture: bool,
}

impl View for Command {
    type V = CommandView;

    open spec fn view(&self) -> CommandView {
        CommandView {
            program: self.program@,
            args: texts(self.args@),
            current_dir: match self.current_dir {
                Some(dir) => Some(dir@),
                None => None,
            },
            capture: self.capture,
        }
    }
}

/// What an `Event` holds, as mathematical values.
pub enum EventView {
    Start,
    Written,
    Exited { stage: Stage, success: bool, stdout: Seq<char>, stderr: Seq<char> },
}

/// What happened last in a compilation.
#[derive(Debug, PartialEq, Eq)]
pub enum Event {
    /// Nothing yet.
    Start,
    /// The resource script was written.
    Written,
    /// A program has ended, with success or without. The two texts are what
    /// it wrote, if that was kept.
    Exited { stage: Stage, success: bool, stdout: String, stderr: String },
}

impl View for Event {
    type V = EventView;

    open spec fn view(&self) -> EventView {
        match self {
            Event::Start => EventView::Start,
            Event::Written => EventView::Written,
            Event::Exited { stage, success, stdout, stderr } => EventView::Exited {
                stage: *stage,
                success: *success,
                stdout: stdout@,
                stderr: stderr@,
            },
        }
    }
}

/// What an `Action` holds, as mathematical values.
pub enum ActionView {
    Write { path: Seq<char>, text: Seq<char> },
    Run { stage: Stage, command: CommandView },
    Finish { lines: Seq<Seq<char>> },
    Fail { lines: Seq<Seq<char>>, error: CompileError },
}

/// What to do next in a compilation.
#[derive(Debug, PartialEq, Eq)]
pub enum Action {
    /// Write `text` to the file `path`, then report `Event::Written`.
    Write { path: String, text: String },
    /// Run `command` and wait for it to end, then report `Event::Exited`
    /// with this stage.
    Run { stage: Stage, command: Command },
    /// Print `lines`, one by one: they hold the directives for the build
    /// system. The compilation has succeeded.
    Finish { lines: Vec<String> },
    /// Print `lines`. The compilation has failed with `error`.
    Fail { lines: Vec<String>, error: CompileError },
}

impl View for Action {
    type V = ActionView;

    open spec fn view(&self) -> ActionView {
        match self {
            Action::Write { path, text } => ActionView::Write { path: path@, text: text@ },
            Action::Run { stage, command } => ActionView::Run { stage: *stage, command: command@ },
            Action::Finish { lines } => ActionView::Finish { lines: texts(lines@) },
            Action::Fail { lines, error } => ActionView::Fail {
                lines: texts(lines@),
                error: *error,
            },
        }
    }
}

/// One flag for each directory: `/I` and the directory's path.
pub open spec fn include_flags(dirs: Entries) -> Seq<Seq<char>> {
    Seq::new(dirs.len(), |i: int| "/I"@ + dirs[i].1)
}

impl Descriptor {
    /// The resource script that is compiled: the one that was set, or the
    /// rendered one in the output directory.
    pub open spec fn script_path(self) -> Seq<char> {
        match self.rc_file {
            Some(path) => path,
            None => path_join(self.output_directory, "resource.rc"@),
        }
    }

    /// The run of `windres` that compiles `input` to an object file.
    pub open spec fn windres_command(
        self,
        manifest_dir: Seq<char>,
        input: Seq<char>,
        output_dir: Seq<char>,
    ) -> CommandView {
        CommandView {
            program: match self.windres_path {
                Some(path) => path,
                None => "windres.exe"@,
            },
            args: seq!["-I"@ + manifest_dir, input, path_join(output_dir, "resource.o"@)],
            current_dir: Some(self.tool.bin_dir),
            capture: false,
        }
    }

    /// The run of `ar` that wraps the object file into a static archive.
    pub open spec fn ar_command(self, output_dir: Seq<char>) -> CommandView {
        CommandView {
            program: match self.ar_path {
                Some(path) => path,
                None => "ar.exe"@,
            },
            args: seq![
                "rsc"@,
                path_join(output_dir, "libresource.a"@),
                path_join(output_dir, "resource.o"@),
            ],
            current_dir: Some(self.tool.bin_dir),
            capture: false,
        }
    }

    /// The run of `rc.exe` that compiles `input`: with the package's
    /// directory and every include directory of the SDK as places to look
    /// for files, and the compiled resource as output.
    pub open spec fn rc_command(
        self,
        manifest_dir: Seq<char>,
        input: Seq<char>,
        output_dir: Seq<char>,
    ) -> CommandView {
        CommandView {
            program: self.tool.path,
            args: seq!["/I"@ + manifest_dir] + include_flags(self.tool.include_dirs) + seq![
                "/fo"@ + path_join(output_dir, "resource.lib"@),
                input,
            ],
            current_dir: None,
            capture: true,
        }
    }

    /// The directives that tell the build system to link what was produced
    /// in `output_dir`, as a library of the given kind.
    pub open spec fn link_lines(output_dir: Seq<char>, kind: Seq<char>) -> Seq<Seq<char>> {
        seq![
            "cargo:rustc-link-search=native="@ + output_dir,
            "cargo:rustc-link-lib="@ + kind + "=resource"@,
        ]
    }

    /// What `rc.exe` wrote, for the reader of the build's output.
    pub open spec fn rc_report(stdout: Seq<char>, stderr: Seq<char>) -> Seq<Seq<char>> {
        seq![
            "RC Output:\n"@ + stdout + "\n------"@,
            "RC Error:\n"@ + stderr + "\n------"@,
        ]
    }

    /// The next step of compiling `input` into `output_dir` with the tools
    /// of `toolkit`.
    ///
    /// With the GNU tools, `windres` runs first and `ar` second, and either
    /// one's failure ends the compilation. With the SDK's tools, `rc.exe`
    /// runs, and what it wrote is printed whether it succeeded or not. After
    /// the last program the directives for the build system are printed.
    pub open spec fn toolkit_step(
        self,
        toolkit: Toolkit,
        manifest_dir: Seq<char>,
        input: Seq<char>,
        output_dir: Seq<char>,
        event: EventView,
    ) -> ActionView {
        match toolkit {
            Toolkit::Unsupported => ActionView::Fail {
                lines: Seq::empty(),
                error: CompileError::UnsupportedToolchain,
            },
            Toolkit::Gnu => match event {
                EventView::Exited { stage, success, .. } => if !success {
                    ActionView::Fail {
                        lines: Seq::empty(),
                        error: CompileError::SubprocessFailed { stage: stage },
                    }
                } else if stage == Stage::ResourceCompiler {
                    ActionView::Run { stage: Stage::Archiver, command: self.ar_command(output_dir) }
                } else {
                    ActionView::Finish { lines: Descriptor::link_lines(output_dir, "static"@) }
                },
                _ => ActionView::Run {
                    stage: Stage::ResourceCompiler,
                    command: self.windres_command(manifest_dir, input, output_dir),
                },
            },
            Toolkit::Msvc => match event {
                EventView::Exited { success, stdout, stderr, .. } => if success {
                    ActionView::Finish {
                        lines: Descriptor::rc_report(stdout, stderr) + Descriptor::link_lines(
                            output_dir,
                            "dylib"@,
                        ),
                    }
                } else {
                    ActionView::Fail {
                        lines: Descriptor::rc_report(stdout, stderr),
                        error: CompileError::SubprocessFailed { stage: Stage::ResourceCompiler },
                    }
                },
                _ => ActionView::Run {
                    stage: Stage::ResourceCompiler,
                    command: self.rc_command(manifest_dir, input, output_dir),
                },
            },
        }
    }

    /// The next step of a compilation. Without tools for the target nothing
    /// is done at all. Else the resource script is written first, unless one
    /// was set, and then compiled into the output directory.
    pub open spec fn compile_step(
        self,
        toolkit: Toolkit,
        manifest_dir: Seq<char>,
        event: EventView,
    ) -> ActionView {
        if toolkit == Toolkit::Unsupported {
            ActionView::Fail { lines: Seq::empty(), error: CompileError::UnsupportedToolchain }
        } else if event == EventView::Start && self.rc_file is None {
            ActionView::Write { path: self.script_path(), text: self.resource_text() }
        } else {
            self.toolkit_step(
                toolkit,
                manifest_dir,
                self.script_path(),
                self.output_directory,
                event,
            )
        }
    }
}

/// `head` followed by `tail`.
fn concat(head: &str, tail: &str) -> (text: String)
    ensures
        text@ == head@ + tail@,
{
    let mut text = head.to_owned();
    text.append(tail);
    text
}

fn link_lines(output_dir: &str, kind: &str) -> (lines: Vec<String>)
    ensures
        texts(lines@) == Descriptor::link_lines(output_dir@, kind@),
{
    let mut lines: Vec<String> = Vec::new();
    lines.push(concat("cargo:rustc-link-search=native=", output_dir));
    let mut lib = concat("cargo:rustc-link-lib=", kind);
    lib.append("=resource");
    lines.push(lib);
    assert(texts(lines@) =~= Descriptor::link_lines(output_dir@, kind@));
    lines
}

fn rc_report(stdout: &str, stderr: &str) -> (lines: Vec<String>)
    ensures
        texts(lines@) == Descriptor::rc_report(stdout@, stderr@),
{
    let mut lines: Vec<String> = Vec::new();
    let mut output = concat("RC Output:\n", stdout);
    output.append("\n------");
    lines.push(output);
    let mut error = concat("RC Error:\n", stderr);
    error.append("\n------");
    lines.push(error);
    assert(texts(lines@) =~= Descriptor::rc_report(stdout@, stderr@));
    lines
}

impl WindowsResource {
    /// The include directories of the SDK that the resource compiler
    /// belongs to.
    pub fn include_dirs(&self) -> (dirs: Vec<&str>)
        ensures
            dirs@.len() == self@.tool.include_dirs.len(),
            forall|i: int|
                0 <= i < dirs@.len() ==> (#[trigger] dirs@[i])@ == self@.tool.include_dirs[i].1,
    {
        let map = self.tool_include_dirs();
        let mut dirs: Vec<&str> = Vec::new();
        let n = map.len();
        let mut i: usize = 0;
        while i < n
            invariant
                i <= n == map@.len(),
                dirs@.len() == i,
                forall|k: int| 0 <= k < i ==> (#[trigger] dirs@[k])@ == map@[k].1,
            decreases n - i,
        {
            dirs.push(map.value(i));
            i += 1;
        }
        dirs
    }

    fn windres_command(&self, manifest_dir: &str, input: &str, output_dir: &str) -> (command: Command)
        ensures
            command@ == self@.windres_command(manifest_dir@, input@, output_dir@),
    {
        let mut args: Vec<String> = Vec::new();
        args.push(concat("-I", manifest_dir));
        args.push(input.to_owned());
        args.push(join(output_dir, "resource.o"));
        let command = Command {
            program: match self.windres() {
                Some(path) => path.to_owned(),
                None => "windres.exe".to_owned(),
            },
            args: args,
            current_dir: Some(self.tool_bin_dir().to_owned()),
            capture: false,
        };
        assert(command@.args =~= self@.windres_command(manifest_dir@, input@, output_dir@).args);
        command
    }

    fn ar_command(&self, output_dir: &str) -> (command: Command)
        ensures
            command@ == self@.ar_command(output_dir@),
    {
        let mut args: Vec<String> = Vec::new();
        args.push("rsc".to_owned());
        args.push(join(output_dir, "libresource.a"));
        args.push(join(output_dir, "resource.o"));
        let command = Command {
            program: match self.ar() {
                Some(path) => path.to_owned(),
                None => "ar.exe".to_owned(),
            },
            args: args,
            current_dir: Some(self.tool_bin_dir().to_owned()),
            capture: false,
        };
        assert(command@.args =~= self@.ar_command(output_dir@).args);
        command
    }

    fn rc_command(&self, manifest_dir: &str, input: &str, output_dir: &str) -> (command: Command)
        ensures
            command@ == self@.rc_command(manifest_dir@, input@, output_dir@),
    {
        let ghost flags = include_flags(self@.tool.include_dirs);
        let mut args: Vec<String> = Vec::new();
        args.push(concat("/I", manifest_dir));
        let dirs = self.include_dirs();
        let ghost head = texts(args@);
        let mut i: usize = 0;
        proof {
            assert(texts(args@) =~= head + flags.take(0));
        }
        while i < dirs.len()
            invariant
                i <= dirs@.len(),
                dirs@.len() == self@.tool.include_dirs.len(),
                forall|k: int|
                    0 <= k < dirs@.len() ==> (#[trigger] dirs@[k])@ == self@.tool.include_dirs[k].1,
                flags == include_flags(self@.tool.include_dirs),
                texts(args@) == head + flags.take(i as int),
            decreases dirs@.len() - i,
        {
            let ghost before = args@;
            let flag = concat("/I", dirs[i]);
            args.push(flag);
            proof {
                assert(texts(args@) =~= texts(before).push(flags[i as int]));
                assert(head + flags.take(i + 1) =~= (head + flags.take(i as int)).push(
                    flags[i as int],
                ));
            }
            i += 1;
        }
        proof {
            assert(flags.take(dirs@.len() as int) =~= flags);
        }
        let ghost middle = args@;
        let output = join(output_dir, "resource.lib");
        args.push(concat("/fo", output.as_str()));
        args.push(input.to_owned());
        let command = Command {
            program: self.tool_path().to_owned(),
            args: args,
            current_dir: None,
            capture: true,
        };
        proof {
            let wanted = self@.rc_command(manifest_dir@, input@, output_dir@).args;
            assert(head =~= seq!["/I"@ + manifest_dir@]);
            assert(command@.args =~= texts(middle) + seq![
                "/fo"@ + path_join(output_dir@, "resource.lib"@),
                input@,
            ]);
            assert(command@.args =~= wanted);
        }
        command
    }

    /// The next step of compiling the resource script `input` into
    /// `output_dir` with the tools of `toolkit`, after `event`. The
    /// directory of the package, `manifest_dir`, is where the resource
    /// compiler looks for the files that the script names.
    pub fn compile_with_toolkit(
        &self,
        toolkit: Toolkit,
        manifest_dir: &str,
        input: &str,
        output_dir: &str,
        event: &Event,
    ) -> (action: Action)
        ensures
            action@ == self@.toolkit_step(toolkit, manifest_dir@, input@, output_dir@, event@),
    {
        match toolkit {
            Toolkit::Unsupported => Action::Fail {
                lines: no_lines(),
                error: CompileError::UnsupportedToolchain,
            },
            Toolkit::Gnu => match event {
                Event::Exited { stage, success, .. } => {
                    if !*success {
                        Action::Fail {
                            lines: no_lines(),
                            error: CompileError::SubprocessFailed { stage: *stage },
                        }
                    } else if *stage == Stage::ResourceCompiler {
                        Action::Run { stage: Stage::Archiver, command: self.ar_command(output_dir) }
                    } else {
                        Action::Finish { lines: link_lines(output_dir, "static") }
                    }
                },
                _ => Action::Run {
                    stage: Stage::ResourceCompiler,
                    command: self.windres_command(manifest_dir, input, output_dir),
                },
            },
            Toolkit::Msvc => match event {
                Event::Exited { success, stdout, stderr, .. } => {
                    let mut lines = rc_report(stdout.as_str(), stderr.as_str());
                    if *success {
                        let ghost report = lines@;
                        let mut directives = link_lines(output_dir, "dylib");
                        let ghost links = directives@;
                        lines.append(&mut directives);
                        proof {
                            assert(texts(lines@) =~= texts(report) + texts(links));
                        }
                        Action::Finish { lines: lines }
                    } else {
                        Action::Fail {
                            lines: lines,
                            error: CompileError::SubprocessFailed { stage: Stage::ResourceCompiler },
                        }
                    }
                },
                _ => Action::Run {
                    stage: Stage::ResourceCompiler,
                    command: self.rc_command(manifest_dir, input, output_dir),
                },
            },
        }
    }

    /// The next step of the compilation, after `event`: begin with
    /// `Event::Start`, do what the action says, and come back with what
    /// happened, until the action is `Finish` or `Fail`.
    ///
    /// The resource script is rendered and written to `resource.rc` in the
    /// output directory, unless a script was set; then the tools of
    /// `toolkit` compile it into the output directory. The last action
    /// carries the directives that have the build system link the result.
    pub fn compile(&self, toolkit: Toolkit, manifest_dir: &str, event: &Event) -> (action: Action)
        ensures
            action@ == self@.compile_step(toolkit, manifest_dir@, event@),
    {
        if toolkit == Toolkit::Unsupported {
            return Action::Fail { lines: no_lines(), error: CompileError::UnsupportedToolchain };
        }
        let output_dir = self.output_dir();
        match self.resource_file() {
            Some(script) => self.compile_with_toolkit(
                toolkit,
                manifest_dir,
                script,
                output_dir,
                event,
            ),
            None => {
                let script = join(output_dir, "resource.rc");
                match event {
                    Event::Start => Action::Write { path: script, text: self.render() },
                    _ => self.compile_with_toolkit(
                        toolkit,
                        manifest_dir,
                        script.as_str(),
                        output_dir,
                        event,
                    ),
                }
            },
        }
    }
}

fn no_lines() -> (lines: Vec<String>)
    ensures
        texts(lines@) == Seq::<Seq<char>>::empty(),
{
    let lines: Vec<String> = Vec::new();
    assert(texts(lines@) =~= Seq::<Seq<char>>::empty());
    lines
}

} // verus!
