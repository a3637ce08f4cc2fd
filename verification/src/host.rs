//! What programs ask of their host: input and output, the time, floating-point
//! arithmetic, bodies of generic functions, and the phases before evaluation.

use crate::ast::{Span, SpanModel};
use crate::display::{Piece, PieceModel};
use crate::error::{ErrorModel, MetelError};
use crate::operators::FloatTask;
use crate::program::{ModuleModel, TypedModule};
use crate::store::{Store, StoreModel};
use crate::term::Term;
use crate::typed_ast::{GenericBody, TypedBlock, TypedDecl};
use crate::types::Type;
use crate::values::{FloatKind, Value, ValueTerm};
use std::rc::Rc;
use vstd::prelude::*;

verus! {

/// A call of a generic function: the function, the values and the types that it
/// is called with as far as they are known, and the type that is expected of it.
#[derive(Debug)]
pub struct GenericCall {
    pub body: GenericBody,
    /// The module whose types, and whose identities of bindings, the body is typed with.
    /// The host holds both.
    pub ctx: usize,
    pub name: String,
    pub receiver: Option<Value>,
    pub args: Vec<Value>,
    pub static_receiver: Option<Type>,
    pub static_args: Option<Vec<Type>>,
    pub expected: Option<Type>,
    pub span: Span,
}

pub struct GenericCallModel {
    pub body: GenericBody,
    pub ctx: usize,
    pub name: Seq<char>,
    pub receiver: Option<ValueTerm>,
    pub args: Seq<ValueTerm>,
    pub static_receiver: Option<Term>,
    pub static_args: Option<Seq<Term>>,
    pub expected: Option<Term>,
    pub span: SpanModel,
}

impl DeepView for GenericCall {
    type V = GenericCallModel;

    open spec fn deep_view(&self) -> GenericCallModel {
        GenericCallModel {
            body: self.body,
            ctx: self.ctx,
            name: self.name@,
            receiver: self.receiver.deep_view(),
            args: self.args.deep_view(),
            static_receiver: self.static_receiver.deep_view(),
            static_args: self.static_args.deep_view(),
            expected: self.expected.deep_view(),
            span: self.span.deep_view(),
        }
    }
}

/// A phase of the pipeline that comes before evaluation. Each goes on from what
/// the ones before it have given.
#[derive(Debug)]
pub enum Phase {
    LoadRoot(String),
    /// Loads a source that is in memory, as the root at a path.
    LoadVirtualRoot { root: String, source: String },
    Resolve,
    Normalize,
    Coherence,
    Typecheck,
    MoveCheck,
    Elaborate,
}

pub enum PhaseModel {
    LoadRoot(Seq<char>),
    LoadVirtualRoot { root: Seq<char>, source: Seq<char> },
    Resolve,
    Normalize,
    Coherence,
    Typecheck,
    MoveCheck,
    Elaborate,
}

impl DeepView for Phase {
    type V = PhaseModel;

    open spec fn deep_view(&self) -> PhaseModel {
        match self {
            Phase::LoadRoot(f) => PhaseModel::LoadRoot(f@),
            Phase::LoadVirtualRoot { root, source } => PhaseModel::LoadVirtualRoot {
                root: root@,
                source: source@,
            },
            Phase::Resolve => PhaseModel::Resolve,
            Phase::Normalize => PhaseModel::Normalize,
            Phase::Coherence => PhaseModel::Coherence,
            Phase::Typecheck => PhaseModel::Typecheck,
            Phase::MoveCheck => PhaseModel::MoveCheck,
            Phase::Elaborate => PhaseModel::Elaborate,
        }
    }
}

/// Where the type checker spends its time, and how much it does.
#[derive(Debug, Clone, Copy, PartialEq, Eq, Structural)]
pub struct TypecheckPhaseTimings {
    pub registry_ns: u64,
    pub inference_ns: u64,
    pub solve_ns: u64,
    pub scheme_env_ns: u64,
    pub construction_ns: u64,
    pub finalize_ns: u64,
    pub solve_calls: u64,
    pub constraints_processed: u64,
}

impl Default for TypecheckPhaseTimings {
    fn default() -> (r: Self)
        ensures
            r == (TypecheckPhaseTimings {
                registry_ns: 0,
                inference_ns: 0,
                solve_ns: 0,
                scheme_env_ns: 0,
                construction_ns: 0,
                finalize_ns: 0,
                solve_calls: 0,
                constraints_processed: 0,
            }),
    {
        TypecheckPhaseTimings {
            registry_ns: 0,
            inference_ns: 0,
            solve_ns: 0,
            scheme_env_ns: 0,
            construction_ns: 0,
            finalize_ns: 0,
            solve_calls: 0,
            constraints_processed: 0,
        }
    }
}

/// What a phase gives.
#[derive(Debug)]
pub enum PhaseAnswer {
    Done,
    Failed(MetelError),
    Checked { warnings: Vec<String>, timings: TypecheckPhaseTimings },
    Warned(Vec<String>),
    /// The modules of the program, dependencies first, and the declarations of the
    /// core library.
    Program { modules: Vec<TypedModule>, core: Vec<TypedDecl> },
}

pub enum AnswerModel {
    Done,
    Failed(ErrorModel),
    Checked { warnings: Seq<Seq<char>>, timings: TypecheckPhaseTimings },
    Warned(Seq<Seq<char>>),
    Program { modules: Seq<ModuleModel>, core: Seq<TypedDecl> },
}

impl DeepView for PhaseAnswer {
    type V = AnswerModel;

    open spec fn deep_view(&self) -> AnswerModel {
        match self {
            PhaseAnswer::Done => AnswerModel::Done,
            PhaseAnswer::Failed(e) => AnswerModel::Failed(e@),
            PhaseAnswer::Checked { warnings, timings } => AnswerModel::Checked {
                warnings: warnings.deep_view(),
                timings: *timings,
            },
            PhaseAnswer::Warned(warnings) => AnswerModel::Warned(warnings.deep_view()),
            PhaseAnswer::Program { modules, core } => AnswerModel::Program {
                modules: modules.deep_view(),
                core: core@,
            },
        }
    }
}

/// What a host is asked to do.
#[derive(Debug)]
pub enum Task {
    /// Writes a text to the output, and ends the line where `newline` is set.
    Print { text: Vec<Piece>, newline: bool },
    /// Writes a line to the error output.
    PrintError(Vec<Piece>),
    /// Writes pieces out as one text.
    Text(Vec<Piece>),
    /// The time in milliseconds.
    Clock,
    /// A clock for measuring, in nanoseconds.
    Nanos,
    /// The value of an environment variable.
    EnvVar(String),
    /// All environment variables.
    EnvVars,
    /// The contents of a file.
    ReadToString(String),
    /// Writes a file anew, or at its end where `append` is set.
    WriteString { path: String, contents: String, append: bool },
    /// Whether a file exists.
    Exists(String),
    /// The names of the files in a directory.
    ReadDir(String),
    /// Makes a directory, with those that it is in where `all` is set.
    CreateDir { path: String, all: bool },
    /// Removes a file.
    RemoveFile(String),
    /// Removes a directory, with all that is in it where `all` is set.
    RemoveDir { path: String, all: bool },
    /// The arguments of the program.
    Args,
    /// Runs a command, without a shell.
    Run { command: String, args: Vec<String> },
    /// Arithmetic on floating-point numbers.
    FloatOp(FloatTask),
    /// The integer that a floating-point number is cut to.
    FloatToInt { kind: FloatKind, bits: u64 },
    /// The floating-point number nearest to an integer.
    IntToFloat { kind: FloatKind, number: i128 },
    /// A floating-point number of one type in another.
    FloatToFloat { kind: FloatKind, source: FloatKind, bits: u64 },
    /// The body of a generic function, typed for a call.
    Construct(GenericCall),
    /// A phase of the pipeline that comes before evaluation.
    Phase(Phase),
}

pub enum TaskModel {
    Print { text: Seq<PieceModel>, newline: bool },
    PrintError(Seq<PieceModel>),
    Text(Seq<PieceModel>),
    Clock,
    Nanos,
    EnvVar(Seq<char>),
    EnvVars,
    ReadToString(Seq<char>),
    WriteString { path: Seq<char>, contents: Seq<char>, append: bool },
    Exists(Seq<char>),
    ReadDir(Seq<char>),
    CreateDir { path: Seq<char>, all: bool },
    RemoveFile(Seq<char>),
    RemoveDir { path: Seq<char>, all: bool },
    Args,
    Run { command: Seq<char>, args: Seq<Seq<char>> },
    FloatOp(FloatTask),
    FloatToInt { kind: FloatKind, bits: u64 },
    IntToFloat { kind: FloatKind, number: i128 },
    FloatToFloat { kind: FloatKind, source: FloatKind, bits: u64 },
    Construct(GenericCallModel),
    Phase(PhaseModel),
}

impl DeepView for Task {
    type V = TaskModel;

    open spec fn deep_view(&self) -> TaskModel {
        match self {
            Task::Print { text, newline } => TaskModel::Print {
                text: text.deep_view(),
                newline: *newline,
            },
            Task::PrintError(x) => TaskModel::PrintError(x.deep_view()),
            Task::Text(x) => TaskModel::Text(x.deep_view()),
            Task::Clock => TaskModel::Clock,
            Task::Nanos => TaskModel::Nanos,
            Task::EnvVar(x) => TaskModel::EnvVar(x@),
            Task::EnvVars => TaskModel::EnvVars,
            Task::ReadToString(x) => TaskModel::ReadToString(x@),
            Task::WriteString { path, contents, append } => TaskModel::WriteString {
                path: path@,
                contents: contents@,
                append: *append,
            },
            Task::Exists(x) => TaskModel::Exists(x@),
            Task::ReadDir(x) => TaskModel::ReadDir(x@),
            Task::CreateDir { path, all } => TaskModel::CreateDir {
                path: path@,
                all: *all,
            },
            Task::RemoveFile(x) => TaskModel::RemoveFile(x@),
            Task::RemoveDir { path, all } => TaskModel::RemoveDir {
                path: path@,
                all: *all,
            },
            Task::Args => TaskModel::Args,
            Task::Run { command, args } => TaskModel::Run {
                command: command@,
                args: args.deep_view(),
            },
            Task::FloatOp(x) => TaskModel::FloatOp(*x),
            Task::FloatToInt { kind, bits } => TaskModel::FloatToInt {
                kind: *kind,
                bits: *bits,
            },
            Task::IntToFloat { kind, number } => TaskModel::IntToFloat {
                kind: *kind,
                number: *number,
            },
            Task::FloatToFloat { kind, source, bits } => TaskModel::FloatToFloat {
                kind: *kind,
                source: *source,
                bits: *bits,
            },
            Task::Construct(x) => TaskModel::Construct(x.deep_view()),
            Task::Phase(x) => TaskModel::Phase(x.deep_view()),
        }
    }
}

/// What an operation on files or processes gives.
#[derive(Debug)]
pub enum IoValue {
    Unit,
    Text(String),
    Texts(Vec<String>),
    Output { status: i64, stdout: String, stderr: String },
}

pub enum IoModel {
    Unit,
    Text(Seq<char>),
    Texts(Seq<Seq<char>>),
    Output { status: i64, stdout: Seq<char>, stderr: Seq<char> },
}

impl DeepView for IoValue {
    type V = IoModel;

    open spec fn deep_view(&self) -> IoModel {
        match self {
            IoValue::Unit => IoModel::Unit,
            IoValue::Text(s) => IoModel::Text(s@),
            IoValue::Texts(ss) => IoModel::Texts(ss.deep_view()),
            IoValue::Output { status, stdout, stderr } => IoModel::Output {
                status: *status,
                stdout: stdout@,
                stderr: stderr@,
            },
        }
    }
}

/// What a host answers.
#[derive(Debug)]
pub enum Reply {
    Done,
    Text(String),
    MaybeText(Option<String>),
    Pairs(Vec<(String, String)>),
    Texts(Vec<String>),
    Int(i64),
    Wide(i128),
    Bits(u64),
    Flag(bool),
    /// What an operation gives, or the message of its error.
    Io(Result<IoValue, String>),
    /// A body, or the error that its typing gives; nothing where the function has
    /// no type to go by.
    Body(Option<Result<Rc<TypedBlock>, MetelError>>),
    Phase(PhaseAnswer),
}

pub enum ReplyModel {
    Done,
    Text(Seq<char>),
    MaybeText(Option<Seq<char>>),
    Pairs(Seq<(Seq<char>, Seq<char>)>),
    Texts(Seq<Seq<char>>),
    Int(i64),
    Wide(i128),
    Bits(u64),
    Flag(bool),
    Io(Result<IoModel, Seq<char>>),
    Body(Option<Result<TypedBlock, ErrorModel>>),
    Phase(AnswerModel),
}

impl DeepView for Reply {
    type V = ReplyModel;

    open spec fn deep_view(&self) -> ReplyModel {
        match self {
            Reply::Done => ReplyModel::Done,
            Reply::Text(s) => ReplyModel::Text(s@),
            Reply::MaybeText(s) => ReplyModel::MaybeText(s.deep_view()),
            Reply::Pairs(ps) => ReplyModel::Pairs(ps.deep_view()),
            Reply::Texts(ss) => ReplyModel::Texts(ss.deep_view()),
            Reply::Int(n) => ReplyModel::Int(*n),
            Reply::Wide(n) => ReplyModel::Wide(*n),
            Reply::Bits(n) => ReplyModel::Bits(*n),
            Reply::Flag(b) => ReplyModel::Flag(*b),
            Reply::Io(Ok(v)) => ReplyModel::Io(Ok(v.deep_view())),
            Reply::Io(Err(e)) => ReplyModel::Io(Err(e@)),
            Reply::Body(None) => ReplyModel::Body(None),
            Reply::Body(Some(Ok(b))) => ReplyModel::Body(Some(Ok(**b))),
            Reply::Body(Some(Err(e))) => ReplyModel::Body(Some(Err(e@))),
            Reply::Phase(a) => ReplyModel::Phase(a.deep_view()),
        }
    }
}

/// A task that a host was given, what the program's store held then, and its
/// answer.
pub struct Event {
    pub task: TaskModel,
    pub store: StoreModel,
    pub reply: ReplyModel,
}

/// The tasks that a host was given, each with its answer, the first one first.
pub type History = Seq<Event>;

/// What carries out tasks. It remembers what it was given and what it answered;
/// nothing is known of its answers.
pub trait Host {
    /// What it was given so far, and its answers. Only contracts speak of this; no
    /// program calls it.
    spec fn history(&self) -> History;

    fn perform(&mut self, store: &Store, task: Task) -> (reply: Reply)
        ensures
            final(self).history() == old(self).history().push(
                (Event { task: task.deep_view(), store: store@, reply: reply.deep_view() }),
            ),
    ;
}

/// A host that answers from a list, and has nothing to say once the list has come
/// to its end.
pub struct Script {
    pub replies: Vec<Reply>,
    pub given: Ghost<History>,
}

impl Script {
    /// A host that gives these answers, one after the other.
    pub fn new(replies: Vec<Reply>) -> (s: Self)
        ensures
            s.replies@ == replies@,
            s.history() == Seq::<Event>::empty(),
    {
        Script { replies, given: Ghost(Seq::empty()) }
    }
}

impl Host for Script {
    open spec fn history(&self) -> History {
        self.given@
    }

    fn perform(&mut self, store: &Store, task: Task) -> (reply: Reply)
        ensures
            old(self).replies@.len() == 0 ==> reply is Done && final(self).replies@.len() == 0,
            old(self).replies@.len() > 0 ==> reply == old(self).replies@[0]
                && final(self).replies@ == old(self).replies@.drop_first(),
    {
        let reply = if self.replies.len() == 0 {
            Reply::Done
        } else {
            self.replies.remove(0)
        };
        let ghost e = Event { task: task.deep_view(), store: store@, reply: reply.deep_view() };
        self.given = Ghost(self.given@.push(e));
        reply
    }
}

} // verus!
